//! Core of a small personal-website backend: account registration gated by
//! single-use tickets, password verification, session-bound login middleware,
//! short-link allocation, and the input validation the route handlers rely on.
//!
//! The relational store is modeled as an in-memory value with the same
//! transactional semantics the relational schema enforces (unique names, unique
//! tickets, unique short codes, foreign keys); password hashing, secure
//! randomness and encodings come from outside crates through trusted wrappers.

pub mod board;
pub mod crypto;
pub mod deploy;
pub mod laws;
pub mod perms;
pub mod session;
pub mod store;
pub mod validate;

pub use board::{GameMessage, MessageBoard, PostOutcome};
pub use deploy::{PackMode, PowerOptions};
pub use perms::UserPermissions;
pub use session::{Auth, AuthMiddleware, Login, LoginState, SessionRecord, UserInfo};
pub use store::{Db, Link};
pub use validate::{verify_password, verify_shortstring, verify_username};
