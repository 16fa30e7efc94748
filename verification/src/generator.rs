//! The synthetic order source: what it decides once the random draws are
//! made. Inter-arrival times, order types and prices are drawn outside this
//! library, behind the traits of this module.

pub mod orders;
pub mod ring;
pub mod router;
pub mod source;
