//! Decoding of forwarded chat history ("multi-messages"): the transport
//! envelope is framed, decrypted and inflated into a table of named item
//! groups, and one named group is resolved into a tree of forward nodes,
//! following the references that forwarded messages embed in their markup.

pub mod marker;
pub mod model;
pub mod markup;
pub mod error;
pub mod table;
pub mod resolve;
pub mod envelope;
pub mod tea;
pub mod laws;
pub mod http;
