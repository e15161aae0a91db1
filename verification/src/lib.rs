//! Account and address-book logic for a self-hosted RustDesk service.

pub mod config;
pub mod crypto;
pub mod device;
pub mod encoding;
pub mod error;
pub mod handlers;
pub mod model;
pub mod store;
pub mod text;
