//! The role-based contact policy: which pairs of roles may exchange chat
//! messages. The matrix is fixed and symmetric by construction.

use vstd::prelude::*;

verus! {

/// The fixed enumeration of roles a user can hold. Roles are immutable
/// for chat purposes once a user exists.
#[derive(Clone, Copy, Debug, PartialEq, Eq, Structural)]
pub enum UserRole {
    Admin,
    Receptionist,
    Guest,
    Cleaner,
}

/// The role-compatibility matrix. Exactly the three unordered pairs
/// Guest-Receptionist, Admin-Receptionist and Admin-Cleaner may chat, in
/// either orientation; every other ordered pair, same-role pairs included,
/// is denied.
pub open spec fn spec_can_chat(a: UserRole, b: UserRole) -> bool {
    ||| (a == UserRole::Guest && b == UserRole::Receptionist)
    ||| (a == UserRole::Receptionist && b == UserRole::Guest)
    ||| (a == UserRole::Admin && b == UserRole::Receptionist)
    ||| (a == UserRole::Receptionist && b == UserRole::Admin)
    ||| (a == UserRole::Admin && b == UserRole::Cleaner)
    ||| (a == UserRole::Cleaner && b == UserRole::Admin)
}

/// Pure, total decision of whether two roles may exchange chat messages.
/// Consulted when a contact list is filtered and as the inline gate on
/// every inbound chat frame.
pub fn can_chat(role_a: UserRole, role_b: UserRole) -> (r: bool)
    ensures
        r == spec_can_chat(role_a, role_b),
{
    match (role_a, role_b) {
        (UserRole::Guest, UserRole::Receptionist) => true,
        (UserRole::Receptionist, UserRole::Guest) => true,
        (UserRole::Admin, UserRole::Receptionist) => true,
        (UserRole::Receptionist, UserRole::Admin) => true,
        (UserRole::Admin, UserRole::Cleaner) => true,
        (UserRole::Cleaner, UserRole::Admin) => true,
        _ => false,
    }
}

/// The policy is symmetric: whatever one side may initiate, the other may
/// answer.
pub proof fn lemma_can_chat_symmetric(a: UserRole, b: UserRole)
    ensures
        spec_can_chat(a, b) == spec_can_chat(b, a),
{
}

/// Same-role pairs are always denied, so nobody can chat with a peer of
/// their own role (self-chat included).
pub proof fn lemma_can_chat_same_role_denied(a: UserRole)
    ensures
        !spec_can_chat(a, a),
{
}

/// The counterpart roles a requester of the given role may see in their
/// contact list: precisely the roles the matrix lets them chat with.
pub fn allowed_counterpart_roles(role: UserRole) -> (r: Vec<UserRole>)
    ensures
        forall|x: UserRole| r@.contains(x) <==> spec_can_chat(role, x),
{
    let mut r: Vec<UserRole> = Vec::new();
    match role {
        UserRole::Admin => {
            r.push(UserRole::Receptionist);
            r.push(UserRole::Cleaner);
        }
        UserRole::Receptionist => {
            r.push(UserRole::Admin);
            r.push(UserRole::Guest);
        }
        UserRole::Guest => {
            r.push(UserRole::Receptionist);
        }
        UserRole::Cleaner => {
            r.push(UserRole::Admin);
        }
    }
    proof {
        assert forall|x: UserRole| r@.contains(x) <==> spec_can_chat(role, x) by {
            if spec_can_chat(role, x) {
                if r@[0] == x {
                    assert(r@.contains(x));
                } else {
                    assert(r@.len() == 2 && r@[1] == x);
                    assert(r@.contains(x));
                }
            }
        }
    }
    r
}

} // verus!
