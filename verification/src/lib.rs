//! Authentication-token lifecycle manager with verified logic.
//!
//! The crate issues signed, time-bounded credentials, verifies a credential
//! through a dual-token comparison against the stored copy, and plans the
//! expiration of stored tokens; around that core stand the verified pieces
//! of the surrounding content service. Calls into outside crates — the token
//! codec, percent encoding, Markdown rendering — stand behind small trusted
//! wrappers; everything else is verified against the contracts stated here.

pub mod auth;
pub mod codec;
pub mod errors;
pub mod numbers;
pub mod obfusc;
pub mod parser;
pub mod projects;
pub mod repository;
pub mod store;
pub mod sweep;
pub mod text;
