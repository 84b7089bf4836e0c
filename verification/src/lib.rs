//! Core abstractions for talking to heterogeneous conversational AI backends
//! through one uniform interface: a shared result/error model, a polymorphic
//! client contract with composition layers, an incremental text-merge
//! algorithm for streamed deltas, and a mutation-based state model that
//! propagates conversation changes to observers.

pub mod attachments;
pub mod audio;
pub mod bot_id;
pub mod client;
pub mod controller;
pub mod entity;
pub mod fetch;
pub mod map_client;
pub mod merge;
pub mod message;
pub mod multi;
pub mod mutation;
pub mod openclaw;
pub mod realtime;
pub mod result;
pub mod text;
pub mod tool;
pub mod version;
