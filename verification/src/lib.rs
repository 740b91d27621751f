//! Core of a local communication-service daemon that stands in for a
//! vendor's desktop client: framed wire codec, token store, gameplay
//! cache with dirty-bit tracking, request handling, notification-pusher
//! state machine and the sync engine that reconciles local changes with
//! the remote service.
pub mod cache;
pub mod codec;
pub mod comm;
pub mod components;
pub mod config;
pub mod context;
pub mod ext;
pub mod ids;
pub mod msg;
pub mod numbers;
pub mod overlay;
pub mod remote;
pub mod pusher;
pub mod sync;
pub mod token_store;
pub mod types;
pub mod wire;
pub mod workarounds;

pub use ids::IDType;
