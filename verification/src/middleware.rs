//! The request-side access decisions: given the token validator's verdict
//! on a bearer token, who is the caller and may they pass. Extracting the
//! header and decoding the token are I/O and live with the caller; the
//! decisions here are what each guarded route enforces.

use vstd::prelude::*;

use crate::auth::Claims;
use crate::errors::AppError;
use crate::message::UserId;
use crate::roles::UserRole;
use crate::wire::copy_str;

verus! {

/// The authenticated caller attached to a request once its token checked
/// out.
#[derive(Clone, Copy, Debug)]
pub struct AuthUser {
    pub user_id: UserId,
    pub role: UserRole,
}

/// Require a valid token: a missing or invalid one (no claims) is
/// unauthorized; valid claims identify the caller.
pub fn require_auth(claims: Option<&Claims>) -> (r: Result<AuthUser, AppError>)
    ensures
        match claims {
            None => r is Err && r->Err_0 is Unauthorized,
            Some(c) => r is Ok && r->Ok_0.user_id == c.sub && r->Ok_0.role == c.role,
        },
{
    match claims {
        Some(c) => Ok(AuthUser { user_id: c.sub, role: c.role }),
        None => Err(
            AppError::Unauthorized(copy_str("Missing or invalid authorization header")),
        ),
    }
}

/// Require a valid token carrying the admin role; any other role is
/// forbidden.
pub fn require_admin(claims: Option<&Claims>) -> (r: Result<AuthUser, AppError>)
    ensures
        match claims {
            None => r is Err && r->Err_0 is Unauthorized,
            Some(c) => if c.role != UserRole::Admin {
                r is Err && r->Err_0 is Forbidden
            } else {
                r is Ok && r->Ok_0.user_id == c.sub && r->Ok_0.role == c.role
            },
        },
{
    let user = require_auth(claims)?;
    if !matches!(user.role, UserRole::Admin) {
        return Err(AppError::Forbidden(copy_str("Admin access required")));
    }
    Ok(user)
}

/// Require a valid token carrying the guest role; staff roles are
/// forbidden here.
pub fn require_guest(claims: Option<&Claims>) -> (r: Result<AuthUser, AppError>)
    ensures
        match claims {
            None => r is Err && r->Err_0 is Unauthorized,
            Some(c) => if c.role != UserRole::Guest {
                r is Err && r->Err_0 is Forbidden
            } else {
                r is Ok && r->Ok_0.user_id == c.sub && r->Ok_0.role == c.role
            },
        },
{
    let user = require_auth(claims)?;
    if !matches!(user.role, UserRole::Guest) {
        return Err(AppError::Forbidden(copy_str("Guest access only")));
    }
    Ok(user)
}

/// Require a valid token carrying a staff role: any role but guest
/// passes.
pub fn require_staff(claims: Option<&Claims>) -> (r: Result<AuthUser, AppError>)
    ensures
        match claims {
            None => r is Err && r->Err_0 is Unauthorized,
            Some(c) => if c.role == UserRole::Guest {
                r is Err && r->Err_0 is Forbidden
            } else {
                r is Ok && r->Ok_0.user_id == c.sub && r->Ok_0.role == c.role
            },
        },
{
    let user = require_auth(claims)?;
    if matches!(user.role, UserRole::Guest) {
        return Err(AppError::Forbidden(copy_str("Staff access required")));
    }
    Ok(user)
}

} // verus!
