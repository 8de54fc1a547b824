//! In-memory mirror of a chat transcript buffer, a fenced-code-block
//! extractor, and the pure decision logic of the attach / edit / detach
//! lifecycle around them. All host-editor I/O stays outside this crate;
//! these modules work on plain values (lines, names, handles) and carry
//! contracts for everything they compute.

pub mod apply;
pub mod buffers;
pub mod chat;
pub mod code_extractor;
pub mod error;
pub mod lsp;
pub mod mirror;
pub mod session;
pub mod text;
