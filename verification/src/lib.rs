//! Streaming extraction of hyperlinks from tokenised HTML.
//!
//! The crate classifies the attributes of a tag stream into links that a
//! document uses and anchors that it defines, screens out foreign URLs, and
//! attributes each used link to the paragraph that surrounds it.

pub mod arena;
pub mod buffers;
pub mod emitter;
pub mod laws;
pub mod link;
pub mod model;
pub mod scheme;
pub mod tags;
pub mod text;
