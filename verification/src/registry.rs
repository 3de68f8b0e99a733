//! The connection registry: the process-wide mapping from user identity to
//! that user's live-delivery channel. Sessions register on connect, inbound
//! processing pushes payloads to a receiver's entry if one is present, and
//! the entry is removed unconditionally when the user's session ends.
//!
//! Each entry holds a bounded backlog of undelivered payloads; when the
//! backlog is full the oldest payload is dropped, so the live path is
//! lossy by design (at-most-once) while durability comes from the message
//! store.

use vstd::prelude::*;

use crate::message::UserId;

verus! {

/// How many undelivered payloads a user's channel can hold before the
/// oldest is dropped.
pub const CHANNEL_CAPACITY: usize = 100;

struct RegistryEntry {
    user: UserId,
    backlog: Vec<String>,
}

/// The model of a backlog: the pending payloads, oldest first.
pub open spec fn backlog_views(q: Seq<String>) -> Seq<Seq<char>> {
    q.map_values(|p: String| p@)
}

/// A backlog after a best-effort send: the payload goes to the tail; if
/// the backlog is already at capacity, the oldest pending payload is
/// dropped to make room.
pub open spec fn delivered_backlog(q: Seq<Seq<char>>, p: Seq<char>) -> Seq<Seq<char>> {
    if q.len() < CHANNEL_CAPACITY {
        q.push(p)
    } else {
        q.subrange(1, q.len() as int).push(p)
    }
}

spec fn unique_users(s: Seq<RegistryEntry>) -> bool {
    forall|i: int, j: int|
        0 <= i < s.len() && 0 <= j < s.len() && i != j ==> (#[trigger] s[i]).user != (
        #[trigger] s[j]).user
}

spec fn has_user(s: Seq<RegistryEntry>, u: int) -> bool {
    exists|i: int| 0 <= i < s.len() && (#[trigger] s[i]).user as int == u
}

spec fn idx_of(s: Seq<RegistryEntry>, u: int) -> int {
    choose|i: int| 0 <= i < s.len() && (#[trigger] s[i]).user as int == u
}

/// The live-delivery registry. Its model is the map from each connected
/// user's id to that user's pending payloads, oldest first.
pub struct ConnectionRegistry {
    entries: Vec<RegistryEntry>,
}

impl View for ConnectionRegistry {
    type V = Map<int, Seq<Seq<char>>>;

    closed spec fn view(&self) -> Map<int, Seq<Seq<char>>> {
        Map::new(
            |u: int| has_user(self.entries@, u),
            |u: int| backlog_views(self.entries@[idx_of(self.entries@, u)].backlog@),
        )
    }
}

/// With unique users, the entry at position `i` is the one the view reads
/// for that entry's user.
proof fn lemma_idx(s: Seq<RegistryEntry>, i: int)
    requires
        unique_users(s),
        0 <= i < s.len(),
    ensures
        has_user(s, s[i].user as int),
        idx_of(s, s[i].user as int) == i,
{
    let u = s[i].user as int;
    assert(has_user(s, u));
    let j = idx_of(s, u);
    assert(0 <= j < s.len() && s[j].user as int == u);
}

impl ConnectionRegistry {
    /// Well-formedness: one entry per user, every backlog within bound.
    pub closed spec fn wf(&self) -> bool {
        &&& unique_users(self.entries@)
        &&& forall|i: int|
            0 <= i < self.entries@.len() ==> (#[trigger] self.entries@[i]).backlog@.len()
                <= CHANNEL_CAPACITY
    }

    /// An empty registry: nobody is connected.
    pub fn new() -> (r: Self)
        ensures
            r.wf(),
            r@ == Map::<int, Seq<Seq<char>>>::empty(),
    {
        let r = ConnectionRegistry { entries: Vec::new() };
        proof {
            assert(r@ =~= Map::<int, Seq<Seq<char>>>::empty());
        }
        r
    }

    /// Whether `user` currently holds a registry entry.
    pub fn is_connected(&self, user: UserId) -> (r: bool)
        requires
            self.wf(),
        ensures
            r == self@.contains_key(user as int),
    {
        match self.find(user) {
            Some(_) => true,
            None => false,
        }
    }

    /// Position of `user`'s entry, if any.
    fn find(&self, user: UserId) -> (r: Option<usize>)
        requires
            self.wf(),
        ensures
            match r {
                Some(i) => {
                    &&& i < self.entries@.len()
                    &&& self.entries@[i as int].user == user
                    &&& self@.contains_key(user as int)
                    &&& idx_of(self.entries@, user as int) == i as int
                },
                None => !self@.contains_key(user as int),
            },
    {
        let mut i: usize = 0;
        while i < self.entries.len()
            invariant
                self.wf(),
                i <= self.entries.len(),
                forall|j: int| 0 <= j < i ==> (#[trigger] self.entries@[j]).user != user,
            decreases self.entries.len() - i,
        {
            if self.entries[i].user == user {
                proof {
                    lemma_idx(self.entries@, i as int);
                }
                return Some(i);
            }
            i += 1;
        }
        None
    }

    /// Register `user`: look up or create the channel entry. A fresh entry
    /// starts with an empty backlog; if a prior session for the same user
    /// is still registered, its entry (pending payloads included) is
    /// shared unchanged.
    pub fn connect(&mut self, user: UserId)
        requires
            old(self).wf(),
        ensures
            final(self).wf(),
            final(self)@ == if old(self)@.contains_key(user as int) {
                old(self)@
            } else {
                old(self)@.insert(user as int, Seq::<Seq<char>>::empty())
            },
            final(self)@.contains_key(user as int),
    {
        let ghost s0 = self.entries@;
        match self.find(user) {
            Some(_) => {
                proof {
                    assert(final(self)@ =~= old(self)@);
                }
            }
            None => {
                self.entries.push(RegistryEntry { user, backlog: Vec::new() });
                proof {
                    let s1 = self.entries@;
                    assert forall|v: int| #[trigger]
                        has_user(s1, v) implies (v == user as int || has_user(s0, v)) by {
                        let i = choose|i: int|
                            0 <= i < s1.len() && (#[trigger] s1[i]).user as int == v;
                        if i < s0.len() {
                            assert(s0[i].user as int == v);
                        }
                    }
                    assert forall|v: int| has_user(s0, v) implies #[trigger] has_user(s1, v) by {
                        let i = choose|i: int|
                            0 <= i < s0.len() && (#[trigger] s0[i]).user as int == v;
                        assert(s1[i].user as int == v);
                    }
                    assert(unique_users(s1));
                    lemma_idx(s1, s0.len() as int);
                    assert(backlog_views(s1[s0.len() as int].backlog@) =~= Seq::<
                        Seq<char>,
                    >::empty());
                    assert forall|v: int|
                        has_user(s0, v) implies #[trigger] self@[v] == old(self)@[v] by {
                        let i = choose|i: int|
                            0 <= i < s0.len() && (#[trigger] s0[i]).user as int == v;
                        lemma_idx(s0, i);
                        lemma_idx(s1, i);
                    }
                    assert(final(self)@ =~= old(self)@.insert(
                        user as int,
                        Seq::<Seq<char>>::empty(),
                    ));
                }
            }
        }
    }

    /// Remove `user`'s entry unconditionally; pending payloads are
    /// discarded. Every other entry is untouched.
    pub fn disconnect(&mut self, user: UserId)
        requires
            old(self).wf(),
        ensures
            final(self).wf(),
            final(self)@ == old(self)@.remove(user as int),
    {
        let ghost s0 = self.entries@;
        match self.find(user) {
            Some(i) => {
                self.entries.remove(i);
                proof {
                    let s1 = self.entries@;
                    assert forall|v: int| #[trigger]
                        has_user(s1, v) implies has_user(s0, v) && v != user as int by {
                        let j = choose|j: int|
                            0 <= j < s1.len() && (#[trigger] s1[j]).user as int == v;
                        if j < i as int {
                            assert(s0[j].user as int == v);
                            lemma_idx(s0, j);
                        } else {
                            assert(s0[j + 1].user as int == v);
                            lemma_idx(s0, j + 1);
                        }
                    }
                    assert forall|v: int|
                        has_user(s0, v) && v != user as int implies #[trigger] has_user(s1, v)
                        && self@[v] == old(self)@[v] by {
                        let j = choose|j: int|
                            0 <= j < s0.len() && (#[trigger] s0[j]).user as int == v;
                        lemma_idx(s0, j);
                        if j < i as int {
                            assert(s1[j].user as int == v);
                            assert(unique_users(s1));
                            lemma_idx(s1, j);
                        } else {
                            assert(s1[j - 1].user as int == v);
                            assert(unique_users(s1));
                            lemma_idx(s1, j - 1);
                        }
                    }
                    assert(final(self)@ =~= old(self)@.remove(user as int));
                }
            }
            None => {
                proof {
                    assert(final(self)@ =~= old(self)@.remove(user as int));
                }
            }
        }
    }

    /// Best-effort send: if `user` holds an entry, `payload` joins the
    /// tail of their backlog (dropping the oldest pending payload first if
    /// the backlog is full) and the call reports delivery; if not, nothing
    /// changes anywhere and the payload is discarded.
    pub fn deliver_if_present(&mut self, user: UserId, payload: String) -> (delivered: bool)
        requires
            old(self).wf(),
        ensures
            final(self).wf(),
            delivered == old(self)@.contains_key(user as int),
            final(self)@ == if old(self)@.contains_key(user as int) {
                old(self)@.insert(
                    user as int,
                    delivered_backlog(old(self)@[user as int], payload@),
                )
            } else {
                old(self)@
            },
    {
        let ghost s0 = self.entries@;
        match self.find(user) {
            Some(i) => {
                let ghost old_backlog = self@[user as int];
                let mut e = self.entries.remove(i);
                if e.backlog.len() >= CHANNEL_CAPACITY {
                    e.backlog.remove(0);
                }
                e.backlog.push(payload);
                proof {
                    broadcast use vstd::prelude::Seq::lemma_push_map_commute;
                }
                self.entries.insert(i, e);
                proof {
                    let s1 = self.entries@;
                    assert(s1 =~= s0.update(i as int, s1[i as int]));
                    assert(s1[i as int].user == user);
                    assert(unique_users(s1));
                    assert(backlog_views(s1[i as int].backlog@) =~= delivered_backlog(
                        old_backlog,
                        payload@,
                    ));
                    assert forall|v: int| #[trigger]
                        has_user(s1, v) == has_user(s0, v) by {
                        if has_user(s1, v) {
                            let j = choose|j: int|
                                0 <= j < s1.len() && (#[trigger] s1[j]).user as int == v;
                            assert(s0[j].user as int == v || s0[j].user == user);
                            assert(has_user(s0, v));
                        }
                        if has_user(s0, v) {
                            let j = choose|j: int|
                                0 <= j < s0.len() && (#[trigger] s0[j]).user as int == v;
                            assert(s1[j].user as int == v || s1[j].user == user);
                            if s0[j].user == user {
                                lemma_idx(s0, j);
                                assert(j == i as int);
                                assert(s1[j].user as int == v);
                            }
                            assert(has_user(s1, v));
                        }
                    }
                    assert forall|v: int|
                        has_user(s0, v) && v != user as int implies #[trigger] self@[v] == old(
                        self,
                    )@[v] by {
                        let j = choose|j: int|
                            0 <= j < s0.len() && (#[trigger] s0[j]).user as int == v;
                        lemma_idx(s0, j);
                        assert(j != i as int);
                        assert(s1[j].user as int == v);
                        lemma_idx(s1, j);
                    }
                    lemma_idx(s1, i as int);
                    assert(final(self)@ =~= old(self)@.insert(
                        user as int,
                        delivered_backlog(old(self)@[user as int], payload@),
                    ));
                }
                true
            }
            None => {
                false
            }
        }
    }

    /// The outbound loop's receive: take the oldest pending payload for
    /// `user`, if there is one. Payloads come out in the order they were
    /// delivered.
    pub fn next_outbound(&mut self, user: UserId) -> (r: Option<String>)
        requires
            old(self).wf(),
        ensures
            final(self).wf(),
            match r {
                Some(p) => {
                    &&& old(self)@.contains_key(user as int)
                    &&& old(self)@[user as int].len() > 0
                    &&& p@ == old(self)@[user as int][0]
                    &&& final(self)@ == old(self)@.insert(
                        user as int,
                        old(self)@[user as int].subrange(
                            1,
                            old(self)@[user as int].len() as int,
                        ),
                    )
                },
                None => {
                    &&& final(self)@ == old(self)@
                    &&& (old(self)@.contains_key(user as int) ==> old(self)@[user as int].len()
                        == 0)
                },
            },
    {
        let ghost s0 = self.entries@;
        match self.find(user) {
            Some(i) => {
                if self.entries[i].backlog.len() == 0 {
                    return None;
                }
                let ghost old_backlog = self@[user as int];
                let mut e = self.entries.remove(i);
                let p = e.backlog.remove(0);
                self.entries.insert(i, e);
                proof {
                    let s1 = self.entries@;
                    assert(s1 =~= s0.update(i as int, s1[i as int]));
                    assert(s1[i as int].user == user);
                    assert(unique_users(s1));
                    assert(backlog_views(s1[i as int].backlog@) =~= old_backlog.subrange(
                        1,
                        old_backlog.len() as int,
                    ));
                    assert forall|v: int| #[trigger]
                        has_user(s1, v) == has_user(s0, v) by {
                        if has_user(s1, v) {
                            let j = choose|j: int|
                                0 <= j < s1.len() && (#[trigger] s1[j]).user as int == v;
                            assert(s0[j].user as int == v || s0[j].user == user);
                            assert(has_user(s0, v));
                        }
                        if has_user(s0, v) {
                            let j = choose|j: int|
                                0 <= j < s0.len() && (#[trigger] s0[j]).user as int == v;
                            assert(s1[j].user as int == v || s1[j].user == user);
                            if s0[j].user == user {
                                lemma_idx(s0, j);
                                assert(j == i as int);
                                assert(s1[j].user as int == v);
                            }
                            assert(has_user(s1, v));
                        }
                    }
                    assert forall|v: int|
                        has_user(s0, v) && v != user as int implies #[trigger] self@[v] == old(
                        self,
                    )@[v] by {
                        let j = choose|j: int|
                            0 <= j < s0.len() && (#[trigger] s0[j]).user as int == v;
                        lemma_idx(s0, j);
                        assert(j != i as int);
                        assert(s1[j].user as int == v);
                        lemma_idx(s1, j);
                    }
                    lemma_idx(s1, i as int);
                    assert(final(self)@ =~= old(self)@.insert(
                        user as int,
                        old(self)@[user as int].subrange(
                            1,
                            old(self)@[user as int].len() as int,
                        ),
                    ));
                }
                Some(p)
            }
            None => None,
        }
    }
}

/// A best-effort send to a full or non-full backlog always leaves the new
/// payload as the most recent pending payload, and never grows the backlog
/// past the bound.
pub proof fn lemma_delivered_backlog(q: Seq<Seq<char>>, p: Seq<char>)
    requires
        q.len() <= CHANNEL_CAPACITY,
    ensures
        delivered_backlog(q, p).len() <= CHANNEL_CAPACITY,
        delivered_backlog(q, p).len() >= 1,
        delivered_backlog(q, p).last() == p,
{
}

} // verus!
