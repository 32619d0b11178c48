//! WebDAV relay for a single Nutstore (Jianguoyun) resource: the verified core.
pub mod auth;
pub mod bootstrap;
pub mod config;
pub mod error;
pub mod headers;
pub mod reply;
pub mod text;
pub mod upstream;
pub mod version_guard;
pub mod webdav;
