//! The accounts of a password vault: who may sign in and how, the second
//! factors they enrolled, the invitations that wait for them, and the
//! rules that keep these records consistent while accounts come and go.
//!
//! The records live in a [`Store`]. Every operation on it is verified to do
//! to the tables what its contract says, and to leave one row under each
//! primary key.

pub mod clock;
pub mod config;
pub mod crypto;
pub mod error;
pub mod ident;
pub mod json;
pub mod related;
pub mod retry;
pub mod store;
pub mod table;
pub mod text;
pub mod two_factor;
pub mod user;

pub use config::Config;
pub use error::{Error, ErrorKind};
pub use related::{Holding, Owned, UserOrgType, UserOrganization};
pub use store::{Store, Tables};
pub use two_factor::{TwoFactor, TwoFactorType};
pub use user::{Invitation, User, UserStatus};
