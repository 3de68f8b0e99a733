//! The socket session state machine.
//!
//! A session authenticates once at upgrade time, registers with the
//! connection registry, then runs two concurrently scheduled loops —
//! outbound (registry to socket) and inbound (socket to store and
//! registry) — until either side closes or errors; whichever loop did not
//! end is cancelled, and the registry entry is removed unconditionally.
//! The loops themselves suspend on I/O and live with the driver; what is
//! modelled here is the phase discipline and each transition's effect on
//! the registry.

use vstd::prelude::*;

use crate::errors::AppError;
use crate::message::UserId;
use crate::registry::ConnectionRegistry;
use crate::roles::UserRole;
use crate::wire::copy_str;

verus! {

/// The phases a session moves through, in order; `Closed` is terminal.
#[derive(Clone, Copy, Debug, PartialEq, Eq, Structural)]
pub enum SessionPhase {
    Connecting,
    Authenticated,
    Active,
    Closing,
    Closed,
}

/// One socket connection's state machine instance. The identity and role
/// are meaningful from `Authenticated` on.
pub struct SocketSession {
    pub phase: SessionPhase,
    pub user_id: UserId,
    pub role: UserRole,
}

impl SocketSession {
    /// A fresh instance for a connection whose upgrade was requested:
    /// nothing is known about the peer yet.
    pub fn open() -> (s: Self)
        ensures
            s.phase == SessionPhase::Connecting,
    {
        SocketSession { phase: SessionPhase::Connecting, user_id: 0, role: UserRole::Guest }
    }

    /// Settle the token validator's verdict, delivered as the validated
    /// claims or nothing. A missing or invalid token rejects the
    /// connection before the upgrade completes and the machine ends;
    /// valid claims authenticate the session under that identity.
    pub fn authenticate(&mut self, claims: Option<(UserId, UserRole)>) -> (r: Result<(), AppError>)
        requires
            old(self).phase == SessionPhase::Connecting,
        ensures
            match claims {
                None => {
                    &&& r is Err
                    &&& r->Err_0 is Unauthorized
                    &&& final(self).phase == SessionPhase::Closed
                },
                Some(c) => {
                    &&& r is Ok
                    &&& final(self).phase == SessionPhase::Authenticated
                    &&& final(self).user_id == c.0
                    &&& final(self).role == c.1
                },
            },
    {
        match claims {
            Some((user_id, role)) => {
                self.phase = SessionPhase::Authenticated;
                self.user_id = user_id;
                self.role = role;
                Ok(())
            }
            None => {
                self.phase = SessionPhase::Closed;
                Err(AppError::Unauthorized(copy_str("Invalid token")))
            }
        }
    }

    /// Register with the connection registry and start running the two
    /// loops: the session shares the user's existing entry if a prior
    /// session is still registered, and owns a fresh empty one otherwise.
    pub fn activate(&mut self, registry: &mut ConnectionRegistry)
        requires
            old(self).phase == SessionPhase::Authenticated,
            old(registry).wf(),
        ensures
            final(registry).wf(),
            final(self).phase == SessionPhase::Active,
            final(self).user_id == old(self).user_id,
            final(self).role == old(self).role,
            final(registry)@ == if old(registry)@.contains_key(old(self).user_id as int) {
                old(registry)@
            } else {
                old(registry)@.insert(old(self).user_id as int, Seq::<Seq<char>>::empty())
            },
            final(registry)@.contains_key(old(self).user_id as int),
    {
        registry.connect(self.user_id);
        self.phase = SessionPhase::Active;
    }

    /// One of the two loops ended — the peer closed the socket, a read or
    /// write failed, or the delivery channel closed; the other loop is to
    /// be cancelled, not drained.
    pub fn begin_close(&mut self)
        requires
            old(self).phase == SessionPhase::Active,
        ensures
            final(self).phase == SessionPhase::Closing,
            final(self).user_id == old(self).user_id,
            final(self).role == old(self).role,
    {
        self.phase = SessionPhase::Closing;
    }

    /// Remove this user's registry entry unconditionally, whichever loop
    /// caused closure, and end the machine.
    pub fn finish_close(&mut self, registry: &mut ConnectionRegistry)
        requires
            old(self).phase == SessionPhase::Closing,
            old(registry).wf(),
        ensures
            final(registry).wf(),
            final(self).phase == SessionPhase::Closed,
            final(self).user_id == old(self).user_id,
            final(registry)@ == old(registry)@.remove(old(self).user_id as int),
    {
        registry.disconnect(self.user_id);
        self.phase = SessionPhase::Closed;
    }
}

} // verus!
