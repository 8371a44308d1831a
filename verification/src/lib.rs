//! Core of a peer-to-peer group-chat node: the wire codec for the
//! request/response protocol, the mirrored group and user state kept by the
//! domain managers, the client-side listener map and pending new-group slot,
//! the command facade, and the network engine's bookkeeping. The surrounding
//! transport, discovery and UI plumbing live outside this crate and drive
//! these state machines through plain values.

pub mod client;
pub mod codec;
pub mod engine;
pub mod errors;
pub mod events;
pub mod facade;
pub mod group;
pub mod ids;
pub mod kmap;
pub mod laws;
pub mod models;
pub mod store;
pub mod user;

pub use events::QUEUE_CAPACITY;
pub use ids::GroupId;
pub use ids::PeerId;
pub use ids::TopicHash;
