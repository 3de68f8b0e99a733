//! The chat core: the user directory, the message store and the
//! connection registry, with the operations a session or a query endpoint
//! performs on them — the contact list, the history fetch with its
//! read-receipt side effect, and the processing of one inbound frame.

use vstd::prelude::*;

use crate::directory::{spec_role_of, UserDirectory, UserRecordView};
use crate::errors::AppError;
use crate::ids::{spec_uuid_text, uuid_chars};
use crate::message::{Message, MessageView, UserId};
use crate::registry::{delivered_backlog, ConnectionRegistry, CHANNEL_CAPACITY};
use crate::roles::{can_chat, spec_can_chat, UserRole};
use crate::store::{
    conversation, mark_from_to, unread_from_to, views_of, MessageStore,
};
use crate::wire::{
    chars_to_string, copy_str, parse_incoming, push_str_chars, serialize_outbound,
    spec_outbound_json, spec_parse_frame,
};

verus! {

/// A contact list entry, derived rather than stored: who can be written
/// to, under what display name, and how many of their messages to the
/// requester are still unread.
pub struct Contact {
    pub id: UserId,
    pub name: String,
    pub role: UserRole,
    pub unread_count: u64,
}

/// The mathematical model of a contact entry.
pub struct ContactView {
    pub id: int,
    pub name: Seq<char>,
    pub role: UserRole,
    pub unread_count: int,
}

impl View for Contact {
    type V = ContactView;

    open spec fn view(&self) -> ContactView {
        ContactView {
            id: self.id as int,
            name: self.name@,
            role: self.role,
            unread_count: self.unread_count as int,
        }
    }
}

/// The display name a contact entry carries: the username, else the full
/// name, else "User " followed by the identity text.
pub open spec fn spec_display_name(u: UserRecordView) -> Seq<char> {
    match u.username {
        Some(n) => n,
        None => match u.full_name {
            Some(f) => f,
            None => "User "@ + spec_uuid_text(u.id as u128),
        },
    }
}

/// The display name of a user record.
pub fn display_name(u: &crate::directory::UserRecord) -> (r: String)
    ensures
        r@ == spec_display_name(u@),
{
    match &u.username {
        Some(n) => n.clone(),
        None => match &u.full_name {
            Some(f) => f.clone(),
            None => {
                let mut v: Vec<char> = Vec::new();
                push_str_chars(&mut v, "User ");
                let mut uc = uuid_chars(u.id);
                v.append(&mut uc);
                chars_to_string(&v)
            }
        },
    }
}

/// Which directory records appear in the contact list of a requester with
/// this role: the non-deactivated users of a role the matrix lets them
/// chat with.
pub open spec fn contact_pred(requester_role: UserRole) -> spec_fn(UserRecordView) -> bool {
    |u: UserRecordView| spec_can_chat(requester_role, u.role) && !u.deactivated
}

/// The contact entry derived for a user record, against a given log and
/// requester.
pub open spec fn spec_contact_of(u: UserRecordView, log: Seq<MessageView>, requester: int)
    -> ContactView {
    ContactView {
        id: u.id,
        name: spec_display_name(u),
        role: u.role,
        unread_count: unread_from_to(log, u.id, requester).len() as int,
    }
}

/// The whole contact list of a requester: the eligible directory records
/// in directory order, each with its unread count.
pub open spec fn spec_contacts(
    dir: Seq<UserRecordView>,
    log: Seq<MessageView>,
    requester: int,
    requester_role: UserRole,
) -> Seq<ContactView> {
    dir.filter(contact_pred(requester_role)).map_values(
        |u: UserRecordView| spec_contact_of(u, log, requester),
    )
}

/// The chat core: the directory it reads roles and contacts from, the
/// store that owns the message log, and the registry of live connections.
pub struct ChatCore {
    pub directory: UserDirectory,
    pub store: MessageStore,
    pub registry: ConnectionRegistry,
}

impl ChatCore {
    /// Well-formedness of all three parts.
    pub open spec fn wf(&self) -> bool {
        &&& self.directory.wf()
        &&& self.store.wf()
        &&& self.registry.wf()
    }

    /// A fresh core: nobody known, nothing logged, nobody connected.
    pub fn new() -> (c: Self)
        ensures
            c.wf(),
            c.directory@ == Seq::<UserRecordView>::empty(),
            c.store@ == Seq::<MessageView>::empty(),
            c.registry@ == Map::<int, Seq<Seq<char>>>::empty(),
    {
        ChatCore {
            directory: UserDirectory::new(),
            store: MessageStore::new(),
            registry: ConnectionRegistry::new(),
        }
    }

    /// The contact list for a requester: every non-deactivated user whose
    /// role the matrix pairs with the requester's, in directory order,
    /// each carrying the count of their messages to the requester that
    /// are still unread.
    pub fn get_contacts(&self, requester_id: UserId, requester_role: UserRole) -> (r: Vec<Contact>)
        ensures
            r@.map_values(|c: Contact| c@) == spec_contacts(
                self.directory@,
                self.store@,
                requester_id as int,
                requester_role,
            ),
    {
        let mut out: Vec<Contact> = Vec::new();
        let mut i: usize = 0;
        let n = self.directory.count();
        while i < n
            invariant
                i <= n,
                n == self.directory@.len(),
                out@.map_values(|c: Contact| c@) == spec_contacts(
                    self.directory@.take(i as int),
                    self.store@,
                    requester_id as int,
                    requester_role,
                ),
            decreases n - i,
        {
            proof {
                broadcast use vstd::prelude::Seq::lemma_filter_push;
                broadcast use vstd::prelude::Seq::lemma_push_map_commute;

                assert(self.directory@.take(i + 1) =~= self.directory@.take(i as int).push(
                    self.directory@[i as int],
                ));
            }
            let u = self.directory.user_at(i);
            if can_chat(requester_role, u.role) && !u.deactivated {
                let unread = self.store.unread_count(u.id, requester_id);
                let c = Contact {
                    id: u.id,
                    name: display_name(u),
                    role: u.role,
                    unread_count: unread as u64,
                };
                out.push(c);
                proof {
                    assert(out@.map_values(|c: Contact| c@) =~= spec_contacts(
                        self.directory@.take(i + 1),
                        self.store@,
                        requester_id as int,
                        requester_role,
                    ));
                }
            } else {
                proof {
                    assert(out@.map_values(|c: Contact| c@) =~= spec_contacts(
                        self.directory@.take(i + 1),
                        self.store@,
                        requester_id as int,
                        requester_role,
                    ));
                }
            }
            i += 1;
        }
        proof {
            assert(self.directory@.take(self.directory@.len() as int) =~= self.directory@);
        }
        out
    }

    /// The history fetch: look the counterpart up (unknown id fails
    /// NotFound), gate on the role matrix (a denied pair fails Forbidden),
    /// then mark everything the counterpart sent the requester as read
    /// and return the full transcript between the two, in log order and
    /// with the just-updated read flags.
    pub fn get_chat_history(
        &mut self,
        requester_id: UserId,
        requester_role: UserRole,
        other_user_id: UserId,
    ) -> (r: Result<Vec<Message>, AppError>)
        requires
            old(self).wf(),
        ensures
            final(self).wf(),
            final(self).directory@ == old(self).directory@,
            final(self).registry@ == old(self).registry@,
            match spec_role_of(old(self).directory@, other_user_id as int) {
                None => {
                    &&& r is Err
                    &&& r->Err_0 is NotFound
                    &&& final(self).store@ == old(self).store@
                },
                Some(other_role) => if !spec_can_chat(requester_role, other_role) {
                    &&& r is Err
                    &&& r->Err_0 is Forbidden
                    &&& final(self).store@ == old(self).store@
                } else {
                    &&& r is Ok
                    &&& final(self).store@ == mark_from_to(
                        old(self).store@,
                        other_user_id as int,
                        requester_id as int,
                    )
                    &&& views_of(r->Ok_0@) == conversation(
                        final(self).store@,
                        requester_id as int,
                        other_user_id as int,
                    )
                },
            },
    {
        let other_role = match self.directory.role_of(other_user_id) {
            Some(role) => role,
            None => {
                return Err(AppError::NotFound(copy_str("User not found")));
            }
        };
        if !can_chat(requester_role, other_role) {
            return Err(AppError::Forbidden(copy_str("Cannot chat with this user")));
        }
        let _updated = self.store.mark_read_from_to(other_user_id, requester_id);
        let msgs = self.store.history(requester_id, other_user_id);
        Ok(msgs)
    }

    /// Process one inbound text frame from an authenticated sender.
    ///
    /// A malformed frame, an unknown receiver and a pair the matrix
    /// denies are all ignored silently: nothing changes and nothing is
    /// reported to the sender. A valid frame is persisted (read=false,
    /// store-assigned id and time) and its outbound rendering is then
    /// delivered best-effort to the receiver's registry entry if the
    /// receiver is connected — and dropped from the live path if not,
    /// the persisted copy remaining for a later history fetch.
    ///
    /// Live delivery renders the record that `append` returned, never a
    /// re-read of the log, so delivery does not depend on durability;
    /// with this crate's in-memory store `append` is total and the
    /// availability-over-durability fallback has no failing branch to
    /// take.
    pub fn handle_frame(
        &mut self,
        sender_id: UserId,
        sender_role: UserRole,
        text: &str,
        now: i64,
    ) -> (r: Option<Message>)
        requires
            old(self).wf(),
        ensures
            final(self).wf(),
            final(self).directory@ == old(self).directory@,
            match spec_parse_frame(text@) {
                None => {
                    &&& r is None
                    &&& final(self).store@ == old(self).store@
                    &&& final(self).registry@ == old(self).registry@
                },
                Some(f) => match spec_role_of(old(self).directory@, f.receiver_id) {
                    None => {
                        &&& r is None
                        &&& final(self).store@ == old(self).store@
                        &&& final(self).registry@ == old(self).registry@
                    },
                    Some(receiver_role) => if !spec_can_chat(sender_role, receiver_role) {
                        &&& r is None
                        &&& final(self).store@ == old(self).store@
                        &&& final(self).registry@ == old(self).registry@
                    } else {
                        &&& r is Some
                        &&& r->0@.sender_id == sender_id as int
                        &&& r->0@.receiver_id == f.receiver_id
                        &&& r->0@.content == f.content
                        &&& r->0@.image_url == f.image_url
                        &&& r->0@.is_read == false
                        &&& r->0@.id == old(self).store@.len()
                        &&& r->0@.created_at >= now as int
                        &&& r->0@.created_at >= old(self).store.spec_clock()
                        &&& r->0@.updated_at == r->0@.created_at
                        &&& final(self).store@ == old(self).store@.push(r->0@)
                        &&& final(self).registry@ == (if old(self).registry@.contains_key(
                            f.receiver_id,
                        ) {
                            old(self).registry@.insert(
                                f.receiver_id,
                                delivered_backlog(
                                    old(self).registry@[f.receiver_id],
                                    spec_outbound_json(r->0@),
                                ),
                            )
                        } else {
                            old(self).registry@
                        })
                    },
                },
            },
    {
        let frame = match parse_incoming(text) {
            Some(f) => f,
            None => {
                return None;
            }
        };
        let receiver_role = match self.directory.role_of(frame.receiver_id) {
            Some(role) => role,
            None => {
                return None;
            }
        };
        if !can_chat(sender_role, receiver_role) {
            return None;
        }
        let crate::wire::IncomingChatMessage { receiver_id, content, image_url } = frame;
        let m = self.store.append(sender_id, receiver_id, content, image_url, now);
        let payload = serialize_outbound(&m);
        let _delivered = self.registry.deliver_if_present(receiver_id, payload);
        Some(m)
    }
}


/// Application state shared across handlers: the chat core standing in
/// front of the directory, store and registry, and the secret that
/// bearer tokens are signed with.
pub struct AppState {
    pub core: ChatCore,
    pub jwt_secret: String,
}

impl AppState {
    /// Fresh state around an empty core.
    pub fn new(jwt_secret: String) -> (s: Self)
        ensures
            s.core.wf(),
            s.jwt_secret@ == jwt_secret@,
            s.core.store@ == Seq::<MessageView>::empty(),
            s.core.directory@ == Seq::<UserRecordView>::empty(),
            s.core.registry@ == Map::<int, Seq<Seq<char>>>::empty(),
    {
        AppState { core: ChatCore::new(), jwt_secret }
    }
}

/// A message sent while its receiver is connected lands, rendered, as the
/// newest pending payload of the receiver's entry, within the backlog
/// bound; every other user's entry stays exactly as it was.
pub proof fn lemma_send_live_delivery(
    reg: Map<int, Seq<Seq<char>>>,
    receiver: int,
    payload: Seq<char>,
)
    requires
        reg.contains_key(receiver),
        reg[receiver].len() <= CHANNEL_CAPACITY,
    ensures
        reg.insert(receiver, delivered_backlog(reg[receiver], payload))[receiver].last()
            == payload,
        reg.insert(receiver, delivered_backlog(reg[receiver], payload))[receiver].len() >= 1,
        reg.insert(receiver, delivered_backlog(reg[receiver], payload))[receiver].len()
            <= CHANNEL_CAPACITY,
        forall|v: int|
            v != receiver ==> reg.insert(
                receiver,
                delivered_backlog(reg[receiver], payload),
            ).contains_key(v) == reg.contains_key(v),
        forall|v: int|
            v != receiver && reg.contains_key(v) ==> reg.insert(
                receiver,
                delivered_backlog(reg[receiver], payload),
            )[v] == reg[v],
{
    crate::registry::lemma_delivered_backlog(reg[receiver], payload);
}

/// Disconnecting removes the user's registry entry, so a later send finds
/// no entry and the live path drops the payload; the persisted record
/// still ends the conversation, so a history fetch after reconnecting
/// returns it.
pub proof fn lemma_disconnect_then_send(
    reg: Map<int, Seq<Seq<char>>>,
    log: Seq<MessageView>,
    m: MessageView,
)
    ensures
        !reg.remove(m.receiver_id).contains_key(m.receiver_id),
        conversation(log.push(m), m.sender_id, m.receiver_id) == conversation(
            log,
            m.sender_id,
            m.receiver_id,
        ).push(m),
        conversation(log.push(m), m.sender_id, m.receiver_id).last() == m,
{
    crate::store::lemma_append_then_history(log, m);
}

} // verus!
