//! Role-gated hotel chat core: a role-compatibility policy, a persistent
//! message log, a live-delivery connection registry, the socket session
//! state machine and wire codec around them, and the account, access and
//! money rules that guard the rest of the backend.

pub mod auth;
pub mod chat;
pub mod directory;
pub mod errors;
pub mod ids;
pub mod inventory;
pub mod message;
pub mod middleware;
pub mod payments;
pub mod registry;
pub mod roles;
pub mod session;
pub mod store;
pub mod uploads;
pub mod wire;

pub use roles::UserRole;
