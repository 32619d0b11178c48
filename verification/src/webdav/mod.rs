//! The WebDAV subset that the relay offers to clients.
pub mod handlers;
pub mod propfind;

pub use handlers::dispatch_vault;
