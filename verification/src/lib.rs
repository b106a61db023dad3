//! Client-side codec for the YGOPro duel protocol: packet framing, the
//! fixed-layout message bodies exchanged with a YGOPro server, the UTF-16
//! name buffers they carry, deck files, and the decisions of the client's
//! "join a room" conversation.
pub mod wire;
pub mod utf16;
pub mod traits;
pub mod packet;
pub mod deck;
pub mod structs;
pub mod session;
