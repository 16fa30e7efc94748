//! The session table: which session is current, and the next sequence number
//! of each session.

use crate::wire::mold::SessionID;
use vstd::prelude::*;

verus! {

/// The next sequence number of one session.
pub struct SessionEntry {
    pub session_id: SessionID,
    pub next: u64,
}

/// Holds the current session tag and, for every session that was numbered, the
/// sequence number that its next message gets. A session that was never
/// numbered starts at 1.
pub struct SessionTable {
    current: SessionID,
    sessions: Vec<SessionEntry>,
}

/// The next sequence number that `entries` hold for `tag`: that of the first
/// entry for it, and 1 where there is none.
pub open spec fn next_in(entries: Seq<SessionEntry>, tag: Seq<u8>) -> u64
    decreases entries.len(),
{
    if entries.len() == 0 {
        1
    } else if entries[0].session_id@ == tag {
        entries[0].next
    } else {
        next_in(entries.drop_first(), tag)
    }
}

/// Whether two session tags are the same ten bytes.
pub fn same_session(a: &SessionID, b: &SessionID) -> (same: bool)
    ensures
        same == (a@ == b@),
{
    let mut i: usize = 0;
    while i < 10
        invariant
            i <= 10,
            forall|j: int| 0 <= j < i ==> a@[j] == b@[j],
        decreases 10 - i,
    {
        if a[i] != b[i] {
            return false;
        }
        i += 1;
    }
    assert(a@ =~= b@);
    true
}

/// Changing the entry at `at`, the first one for its tag, changes what the
/// table holds for that tag and for no other.
proof fn next_in_after_update(entries: Seq<SessionEntry>, at: int, next: u64, tag: Seq<u8>)
    requires
        0 <= at < entries.len(),
        forall|j: int| 0 <= j < at ==> entries[j].session_id@ != entries[at].session_id@,
    ensures
        next_in(
            entries.update(at, SessionEntry { session_id: entries[at].session_id, next }),
            tag,
        ) == if tag == entries[at].session_id@ {
            next
        } else {
            next_in(entries, tag)
        },
        next_in(entries, entries[at].session_id@) == entries[at].next,
    decreases entries.len(),
{
    let changed = entries.update(at, SessionEntry { session_id: entries[at].session_id, next });
    if at > 0 {
        assert(changed.drop_first() =~= entries.drop_first().update(
            at - 1,
            SessionEntry { session_id: entries[at].session_id, next },
        ));
        assert(entries.drop_first()[at - 1] == entries[at]);
        assert forall|j: int| 0 <= j < at - 1 implies (#[trigger] entries.drop_first()[j]).session_id@
            != entries[at].session_id@ by {
            assert(entries.drop_first()[j] == entries[j + 1]);
        }
        next_in_after_update(entries.drop_first(), at - 1, next, tag);
    } else {
        assert(changed.drop_first() =~= entries.drop_first());
    }
}

/// Adding an entry for a tag that has none sets what the table holds for that
/// tag and for no other.
proof fn next_in_after_push(entries: Seq<SessionEntry>, entry: SessionEntry, tag: Seq<u8>)
    requires
        forall|j: int| 0 <= j < entries.len() ==> entries[j].session_id@ != entry.session_id@,
    ensures
        next_in(entries.push(entry), tag) == if tag == entry.session_id@ {
            entry.next
        } else {
            next_in(entries, tag)
        },
        next_in(entries, entry.session_id@) == 1,
    decreases entries.len(),
{
    let pushed = entries.push(entry);
    if entries.len() > 0 {
        assert(pushed.drop_first() =~= entries.drop_first().push(entry));
        assert(pushed[0] == entries[0]);
        assert forall|j: int| 0 <= j < entries.drop_first().len() implies (
        #[trigger] entries.drop_first()[j]).session_id@ != entry.session_id@ by {
            assert(entries.drop_first()[j] == entries[j + 1]);
        }
        next_in_after_push(entries.drop_first(), entry, tag);
    } else {
        assert(pushed.drop_first() =~= Seq::<SessionEntry>::empty());
        assert(pushed[0] == entry);
        assert(next_in(pushed.drop_first(), tag) == 1);
    }
}

impl SessionTable {
    /// The current session tag.
    pub closed spec fn spec_current(&self) -> SessionID {
        self.current
    }

    /// The sequence number that the next message of session `tag` gets.
    pub closed spec fn spec_next(&self, tag: Seq<u8>) -> u64 {
        next_in(self.sessions@, tag)
    }

    /// A table whose current session is ten zero bytes and in which no session
    /// was numbered yet.
    pub fn new() -> (table: Self)
        ensures
            table.spec_current()@ == Seq::new(10, |i: int| 0u8),
            forall|tag: Seq<u8>| table.spec_next(tag) == 1,
    {
        let table = SessionTable { current: [0u8; 10], sessions: Vec::new() };
        assert(table.current@ =~= Seq::new(10, |i: int| 0u8));
        table
    }

    /// A table whose current session is `session_id` and in which no session was
    /// numbered yet.
    pub fn with_session(session_id: SessionID) -> (table: Self)
        ensures
            table.spec_current() == session_id,
            forall|tag: Seq<u8>| table.spec_next(tag) == 1,
    {
        SessionTable { current: session_id, sessions: Vec::new() }
    }

    /// Makes `session_id` the current session. The numbering of every session
    /// stays as it is.
    pub fn set_current_session(&mut self, session_id: SessionID)
        ensures
            final(self).spec_current() == session_id,
            forall|tag: Seq<u8>| final(self).spec_next(tag) == old(self).spec_next(tag),
    {
        self.current = session_id;
    }

    /// The current session tag.
    pub fn get_current_session(&self) -> (session_id: SessionID)
        ensures
            session_id == self.spec_current(),
    {
        self.current
    }

    /// The sequence number that the next message of session `tag` gets, without
    /// taking it.
    pub fn peek_sequence(&self, tag: &SessionID) -> (next: u64)
        ensures
            next == self.spec_next(tag@),
    {
        let mut i: usize = 0;
        assert(self.sessions@.skip(0) =~= self.sessions@);
        while i < self.sessions.len()
            invariant
                i <= self.sessions@.len(),
                forall|j: int| 0 <= j < i ==> self.sessions@[j].session_id@ != tag@,
                next_in(self.sessions@, tag@) == next_in(self.sessions@.skip(i as int), tag@),
            decreases self.sessions@.len() - i,
        {
            if same_session(&self.sessions[i].session_id, tag) {
                return self.sessions[i].next;
            }
            assert(self.sessions@.skip(i as int).drop_first() =~= self.sessions@.skip(i + 1));
            i += 1;
        }
        1
    }

    /// Where the entry for `tag` stands, if there is one.
    fn find(&self, tag: &SessionID) -> (at: Option<usize>)
        ensures
            match at {
                Some(i) => {
                    &&& i < self.sessions@.len()
                    &&& self.sessions@[i as int].session_id@ == tag@
                    &&& forall|j: int| 0 <= j < i ==> self.sessions@[j].session_id@ != tag@
                },
                None => forall|j: int|
                    0 <= j < self.sessions@.len() ==> self.sessions@[j].session_id@ != tag@,
            },
    {
        let mut i: usize = 0;
        while i < self.sessions.len()
            invariant
                i <= self.sessions@.len(),
                forall|j: int| 0 <= j < i ==> self.sessions@[j].session_id@ != tag@,
            decreases self.sessions@.len() - i,
        {
            if same_session(&self.sessions[i].session_id, tag) {
                return Some(i);
            }
            i += 1;
        }
        None
    }

    /// Takes the next sequence number of session `tag`: returns it and moves the
    /// session on by one. The first number of a session is 1. Other sessions and
    /// the current session tag stay as they are.
    pub fn next_sequence(&mut self, tag: SessionID) -> (sequence_number: u64)
        requires
            old(self).spec_next(tag@) < u64::MAX,
        ensures
            sequence_number == old(self).spec_next(tag@),
            final(self).spec_next(tag@) == sequence_number + 1,
            forall|other: Seq<u8>|
                other != tag@ ==> final(self).spec_next(other) == old(self).spec_next(other),
            final(self).spec_current() == old(self).spec_current(),
    {
        match self.find(&tag) {
            Some(i) => {
                let sequence_number = self.sessions[i].next;
                proof {
                    next_in_after_update(self.sessions@, i as int, 0, tag@);
                    assert forall|other: Seq<u8>|
                        next_in(
                            self.sessions@.update(
                                i as int,
                                SessionEntry {
                                    session_id: self.sessions@[i as int].session_id,
                                    next: (sequence_number + 1) as u64,
                                },
                            ),
                            other,
                        ) == if other == tag@ {
                            (sequence_number + 1) as u64
                        } else {
                            next_in(self.sessions@, other)
                        } by {
                        next_in_after_update(
                            self.sessions@,
                            i as int,
                            (sequence_number + 1) as u64,
                            other,
                        );
                    }
                }
                let session_id = self.sessions[i].session_id;
                self.sessions[i] = SessionEntry { session_id, next: sequence_number + 1 };
                sequence_number
            },
            None => {
                let entry = SessionEntry { session_id: tag, next: 2 };
                proof {
                    assert forall|other: Seq<u8>|
                        next_in(self.sessions@.push(entry), other) == if other == tag@ {
                            2u64
                        } else {
                            next_in(self.sessions@, other)
                        } by {
                        next_in_after_push(self.sessions@, entry, other);
                    }
                    next_in_after_push(self.sessions@, entry, tag@);
                }
                self.sessions.push(entry);
                1
            },
        }
    }
}

} // verus!
