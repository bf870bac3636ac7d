//! `deckhand` — the verified mapping core of a controller remapper.

pub mod program;
pub mod runtime;
pub mod chords;
pub mod codec;
pub mod compile;
pub mod forwarder;
pub mod profile;
pub mod handle;
pub mod message;
pub mod vocab;
pub mod logical;
pub mod mapper;
pub mod idmap;
pub mod link;
pub mod session;
