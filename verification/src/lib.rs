pub mod codec;
pub mod config;
pub mod directory;
pub mod error;
pub mod http_bridge;
pub mod service_registry;
