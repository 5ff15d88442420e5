use vstd::prelude::*;

mod crypto;
pub mod config;
pub mod csrf;
pub mod error;
pub mod health;
pub mod items;
pub mod partials;
pub mod services;
pub mod session;
pub mod text;

verus! {

pub use crate::config::AppConfig;
pub use crate::csrf::CsrfSecret;
pub use crate::error::AppError;
pub use crate::services::Services;
pub use crate::session::InMemorySessionStore;
pub use crate::session::Session;
pub use crate::session::SessionStore;

} // verus!
