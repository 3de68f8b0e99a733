//! The message store: the durable, append-only log of chat messages,
//! keyed by sender and receiver, with bidirectional-pair history queries
//! ordered by creation time and bulk mark-as-read.

use vstd::prelude::*;

use crate::message::{Message, MessageView, UserId};

verus! {

/// The model of a sequence of exec messages.
pub open spec fn views_of(s: Seq<Message>) -> Seq<MessageView> {
    s.map_values(|m: Message| m@)
}

/// The predicate selecting the conversation between `a` and `b`.
pub open spec fn between_pred(a: int, b: int) -> spec_fn(MessageView) -> bool {
    |m: MessageView| m.between(a, b)
}

/// All messages of `log` exchanged between `a` and `b`, in either
/// direction, in log order.
pub open spec fn conversation(log: Seq<MessageView>, a: int, b: int) -> Seq<MessageView> {
    log.filter(between_pred(a, b))
}

/// The mapping that raises the read flag on every message from `sender`
/// to `receiver` and keeps every other message as it is.
pub open spec fn mark_fn(sender: int, receiver: int) -> spec_fn(MessageView) -> MessageView {
    |m: MessageView|
        if m.is_from_to(sender, receiver) {
            m.marked_read()
        } else {
            m
        }
}

/// `log` with every message from `sender` to `receiver` marked read.
pub open spec fn mark_from_to(log: Seq<MessageView>, sender: int, receiver: int) -> Seq<
    MessageView,
> {
    log.map_values(mark_fn(sender, receiver))
}

/// The predicate selecting unread messages from `sender` to `receiver`.
pub open spec fn unread_pred(sender: int, receiver: int) -> spec_fn(MessageView) -> bool {
    |m: MessageView| m.is_from_to(sender, receiver) && !m.is_read
}

/// The unread messages of `log` from `sender` to `receiver`.
pub open spec fn unread_from_to(log: Seq<MessageView>, sender: int, receiver: int) -> Seq<
    MessageView,
> {
    log.filter(unread_pred(sender, receiver))
}

/// Non-decreasing creation timestamps.
pub open spec fn ascending(s: Seq<MessageView>) -> bool {
    forall|i: int, j: int|
        0 <= i <= j < s.len() ==> #[trigger] s[i].created_at <= #[trigger] s[j].created_at
}

/// The durable message log. It owns all message records exclusively:
/// records are created by `append`, mutated only by the read-flag
/// transition of `mark_read_from_to`, and never deleted.
pub struct MessageStore {
    log: Vec<Message>,
    clock: i64,
}

impl View for MessageStore {
    type V = Seq<MessageView>;

    /// The model of the store is the log of message models, in insertion
    /// order.
    closed spec fn view(&self) -> Seq<MessageView> {
        views_of(self.log@)
    }
}

impl MessageStore {
    /// The store's clock: the creation timestamp of the newest record, or
    /// the starting point if the log is empty. Timestamps assigned by
    /// `append` never go below it.
    pub closed spec fn spec_clock(&self) -> int {
        self.clock as int
    }

    /// Well-formedness: ids equal log positions (so they are unique and
    /// server-assigned), creation times are non-decreasing along the log,
    /// and none of them is ahead of the clock.
    pub open spec fn wf(&self) -> bool {
        &&& forall|i: int| 0 <= i < self@.len() ==> (#[trigger] self@[i]).id == i
        &&& ascending(self@)
        &&& forall|i: int|
            0 <= i < self@.len() ==> (#[trigger] self@[i]).created_at <= self.spec_clock()
    }

    /// An empty store.
    pub fn new() -> (s: Self)
        ensures
            s.wf(),
            s@ == Seq::<MessageView>::empty(),
            s.spec_clock() == 0,
    {
        let s = MessageStore { log: Vec::new(), clock: 0 };
        proof {
            assert(s@ =~= Seq::<MessageView>::empty());
        }
        s
    }

    /// Insert a new record with read=false and a store-assigned id and
    /// creation time. The creation time is the wall-clock reading `now`,
    /// pushed forward if needed so that timestamps never decrease.
    pub fn append(
        &mut self,
        sender_id: UserId,
        receiver_id: UserId,
        content: String,
        image_url: Option<String>,
        now: i64,
    ) -> (m: Message)
        requires
            old(self).wf(),
        ensures
            final(self).wf(),
            final(self)@ == old(self)@.push(m@),
            m@.id == old(self)@.len(),
            m@.sender_id == sender_id as int,
            m@.receiver_id == receiver_id as int,
            m@.content == content@,
            m@.image_url == (match image_url {
                Some(s) => Some(s@),
                None => None::<Seq<char>>,
            }),
            m@.is_read == false,
            m@.created_at >= now as int,
            m@.created_at >= old(self).spec_clock(),
            m@.created_at == final(self).spec_clock(),
            m@.updated_at == m@.created_at,
    {
        let created = if now > self.clock {
            now
        } else {
            self.clock
        };
        self.clock = created;
        let id = self.log.len() as u64;
        let m = Message {
            id,
            sender_id,
            receiver_id,
            content,
            image_url,
            is_read: false,
            created_at: created,
            updated_at: created,
        };
        let stored = m.clone();
        self.log.push(stored);
        proof {
            broadcast use vstd::prelude::Seq::lemma_push_map_commute;

            assert(self@ =~= old(self)@.push(m@));
        }
        m
    }

    /// The full conversation between `a` and `b`: every message exchanged
    /// between them, in either direction, in log order (hence ascending by
    /// creation time, by `wf` and `lemma_conversation_ascending`). The
    /// result is fully materialized.
    pub fn history(&self, a: UserId, b: UserId) -> (r: Vec<Message>)
        ensures
            views_of(r@) == conversation(self@, a as int, b as int),
    {
        let mut out: Vec<Message> = Vec::new();
        let mut i: usize = 0;
        while i < self.log.len()
            invariant
                i <= self.log.len(),
                views_of(out@) == conversation(self@.take(i as int), a as int, b as int),
            decreases self.log.len() - i,
        {
            proof {
                broadcast use vstd::prelude::Seq::lemma_filter_push;
                broadcast use vstd::prelude::Seq::lemma_push_map_commute;

                assert(self@.take(i + 1) =~= self@.take(i as int).push(self@[i as int]));
            }
            let m = &self.log[i];
            if (m.sender_id == a && m.receiver_id == b) || (m.sender_id == b && m.receiver_id
                == a) {
                out.push(m.clone());
            }
            i += 1;
        }
        proof {
            assert(self@.take(self.log@.len() as int) =~= self@);
        }
        out
    }

    /// Flip read=false to read=true on every message sent by `sender` to
    /// `receiver`; return how many were flipped. Nothing else about any
    /// record changes.
    pub fn mark_read_from_to(&mut self, sender: UserId, receiver: UserId) -> (count: usize)
        requires
            old(self).wf(),
        ensures
            final(self).wf(),
            final(self)@ == mark_from_to(old(self)@, sender as int, receiver as int),
            final(self).spec_clock() == old(self).spec_clock(),
            count == unread_from_to(old(self)@, sender as int, receiver as int).len(),
    {
        let ghost old_views = self@;
        let mut out: Vec<Message> = Vec::new();
        let mut count: usize = 0;
        let mut i: usize = 0;
        while i < self.log.len()
            invariant
                i <= self.log.len(),
                self == old(self),
                views_of(out@) == mark_from_to(
                    old_views.take(i as int),
                    sender as int,
                    receiver as int,
                ),
                count == unread_from_to(
                    old_views.take(i as int),
                    sender as int,
                    receiver as int,
                ).len(),
                old_views == self@,
            decreases self.log.len() - i,
        {
            proof {
                broadcast use vstd::prelude::Seq::lemma_filter_push;
                broadcast use vstd::prelude::Seq::lemma_push_map_commute;

                assert(old_views.take(i + 1) =~= old_views.take(i as int).push(
                    old_views[i as int],
                ));
            }
            let m = &self.log[i];
            if m.sender_id == sender && m.receiver_id == receiver {
                if !m.is_read {
                    count += 1;
                }
                let mut marked = m.clone();
                marked.is_read = true;
                out.push(marked);
            } else {
                out.push(m.clone());
            }
            i += 1;
        }
        proof {
            assert(old_views.take(self.log@.len() as int) =~= old_views);
        }
        self.log = out;
        proof {
            lemma_mark_wf(old(self)@, sender as int, receiver as int);
        }
        count
    }

    /// Count of unread messages from `sender` to `receiver`; used for the
    /// per-contact unread badge.
    pub fn unread_count(&self, sender: UserId, receiver: UserId) -> (c: usize)
        ensures
            c == unread_from_to(self@, sender as int, receiver as int).len(),
    {
        let mut c: usize = 0;
        let mut i: usize = 0;
        while i < self.log.len()
            invariant
                i <= self.log.len(),
                c == unread_from_to(self@.take(i as int), sender as int, receiver as int).len(),
            decreases self.log.len() - i,
        {
            proof {
                broadcast use vstd::prelude::Seq::lemma_filter_push;
                broadcast use vstd::prelude::Seq::lemma_push_map_commute;
                broadcast use vstd::prelude::Seq::lemma_filter_len;

                assert(self@.take(i + 1) =~= self@.take(i as int).push(self@[i as int]));
            }
            let m = &self.log[i];
            if m.sender_id == sender && m.receiver_id == receiver && !m.is_read {
                c += 1;
            }
            i += 1;
        }
        proof {
            assert(self@.take(self.log@.len() as int) =~= self@);
        }
        c
    }
}

/// Marking preserves positions, ids and creation times, so the marked log
/// of a well-formed store is well-formed again.
proof fn lemma_mark_wf(log: Seq<MessageView>, sender: int, receiver: int)
    ensures
        mark_from_to(log, sender, receiver).len() == log.len(),
        forall|i: int|
            0 <= i < log.len() ==> {
                let n = #[trigger] mark_from_to(log, sender, receiver)[i];
                &&& n.id == log[i].id
                &&& n.created_at == log[i].created_at
                &&& n.sender_id == log[i].sender_id
                &&& n.receiver_id == log[i].receiver_id
            },
{
}

/// Every element of a filtered sequence occurs in the sequence it
/// was filtered from.
proof fn lemma_filter_elements_contained<A>(s: Seq<A>, pred: spec_fn(A) -> bool)
    ensures
        forall|i: int| 0 <= i < s.filter(pred).len() ==> s.contains(#[trigger] s.filter(pred)[i]),
    decreases s.len(),
{
    broadcast use vstd::prelude::Seq::lemma_filter_push;
    broadcast use vstd::seq_lib::lemma_seq_contains_after_push;

    if s.len() == 0 {
        reveal(Seq::filter);
    } else {
        let l = s.drop_last();
        let x = s.last();
        lemma_filter_elements_contained(l, pred);
        assert(s =~= l.push(x));
        assert forall|i: int|
            0 <= i < s.filter(pred).len() implies s.contains(#[trigger] s.filter(pred)[i]) by {
            if pred(x) {
                assert(s.filter(pred) == l.filter(pred).push(x));
                if i < l.filter(pred).len() {
                    assert(l.contains(l.filter(pred)[i]));
                }
            } else {
                assert(s.filter(pred) == l.filter(pred));
                assert(l.contains(l.filter(pred)[i]));
            }
        }
    }
}

/// Filtering a log that is ascending by creation time yields a sequence
/// that is ascending by creation time.
proof fn lemma_filter_ascending(log: Seq<MessageView>, pred: spec_fn(MessageView) -> bool)
    requires
        ascending(log),
    ensures
        ascending(log.filter(pred)),
    decreases log.len(),
{
    broadcast use vstd::prelude::Seq::lemma_filter_push;

    if log.len() == 0 {
        reveal(Seq::filter);
    } else {
        let l = log.drop_last();
        let x = log.last();
        assert(log =~= l.push(x));
        lemma_filter_ascending(l, pred);
        if pred(x) {
            assert(log.filter(pred) == l.filter(pred).push(x));
            lemma_filter_elements_contained(l, pred);
            assert forall|i: int, j: int|
                0 <= i <= j < log.filter(pred).len() implies #[trigger] log.filter(
                pred,
            )[i].created_at <= #[trigger] log.filter(pred)[j].created_at by {
                if j < l.filter(pred).len() {
                    assert(l.filter(pred)[i].created_at <= l.filter(pred)[j].created_at);
                } else {
                    if i < l.filter(pred).len() {
                        let m = l.filter(pred)[i];
                        assert(l.contains(m));
                        let k = choose|k: int| 0 <= k < l.len() && l[k] == m;
                        assert(log[k] == m);
                        assert(m.created_at <= x.created_at);
                    }
                }
            }
        } else {
            assert(log.filter(pred) == l.filter(pred));
        }
    }
}

/// A conversation drawn from a log that is ascending by creation time is
/// itself ascending by creation time; with `MessageStore::wf` this is the
/// ordering guarantee of `history`.
pub proof fn lemma_conversation_ascending(log: Seq<MessageView>, a: int, b: int)
    requires
        ascending(log),
    ensures
        ascending(conversation(log, a, b)),
{
    lemma_filter_ascending(log, between_pred(a, b));
}

/// Appending a message and immediately fetching the conversation between
/// its sender and receiver yields the previous conversation with the new
/// message as its last element. Together with `append`'s contract (the
/// new record carries read=false), the fresh message is the last history
/// entry and is unread.
pub proof fn lemma_append_then_history(log: Seq<MessageView>, m: MessageView)
    ensures
        conversation(log.push(m), m.sender_id, m.receiver_id) == conversation(
            log,
            m.sender_id,
            m.receiver_id,
        ).push(m),
{
    broadcast use vstd::prelude::Seq::lemma_filter_push;

    assert(between_pred(m.sender_id, m.receiver_id)(m));
}

/// Marking commutes with the conversation query: marking everything `a`
/// sent to `b` and then reading the conversation is the same as reading
/// the conversation first and marking it.
proof fn lemma_mark_conversation_commute(log: Seq<MessageView>, a: int, b: int)
    ensures
        conversation(mark_from_to(log, a, b), a, b) == mark_from_to(conversation(log, a, b), a, b),
    decreases log.len(),
{
    broadcast use vstd::prelude::Seq::lemma_filter_push;
    broadcast use vstd::prelude::Seq::lemma_push_map_commute;

    if log.len() == 0 {
        reveal(Seq::filter);
        assert(mark_from_to(log, a, b) =~= Seq::<MessageView>::empty());
        assert(conversation(log, a, b) =~= Seq::<MessageView>::empty());
        assert(mark_from_to(conversation(log, a, b), a, b) =~= Seq::<MessageView>::empty());
    } else {
        let l = log.drop_last();
        let x = log.last();
        let f = mark_fn(a, b);
        lemma_mark_conversation_commute(l, a, b);
        assert(log =~= l.push(x));
        assert(mark_from_to(log, a, b) == mark_from_to(l, a, b).push(f(x)));
        assert(x.between(a, b) == f(x).between(a, b));
        if between_pred(a, b)(x) {
            assert(conversation(mark_from_to(log, a, b), a, b) == conversation(
                mark_from_to(l, a, b),
                a,
                b,
            ).push(f(x)));
            assert(conversation(log, a, b) == conversation(l, a, b).push(x));
            assert(mark_from_to(conversation(log, a, b), a, b) == mark_from_to(
                conversation(l, a, b),
                a,
                b,
            ).push(f(x)));
        } else {
            assert(conversation(mark_from_to(log, a, b), a, b) == conversation(
                mark_from_to(l, a, b),
                a,
                b,
            ));
            assert(conversation(log, a, b) == conversation(l, a, b));
        }
    }
}

/// Marking everything `a` sent to `b` as read and then fetching their
/// conversation shows every a-to-b message with read=true and leaves every
/// other message, the b-to-a direction in particular, exactly as it was.
pub proof fn lemma_mark_read_then_history(log: Seq<MessageView>, a: int, b: int)
    ensures
        conversation(mark_from_to(log, a, b), a, b).len() == conversation(log, a, b).len(),
        forall|i: int|
            0 <= i < conversation(log, a, b).len() && conversation(log, a, b)[i].is_from_to(a, b)
                ==> #[trigger] conversation(mark_from_to(log, a, b), a, b)[i] == conversation(
                log,
                a,
                b,
            )[i].marked_read(),
        forall|i: int|
            0 <= i < conversation(log, a, b).len() && !conversation(log, a, b)[i].is_from_to(a, b)
                ==> #[trigger] conversation(mark_from_to(log, a, b), a, b)[i] == conversation(
                log,
                a,
                b,
            )[i],
{
    lemma_mark_conversation_commute(log, a, b);
}

} // verus!
