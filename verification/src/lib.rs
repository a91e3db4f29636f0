//! A position-based parser-combinator engine over one in-memory document.
//!
//! A `Parser` is a session: it owns the document and the table of
//! entities, and hands out parsers. A parser is a value of a type that
//! implements `Parse`; it is run on the session from a cursor, a byte
//! offset into the document, and returns either the cursor after what it
//! matched together with a value, or the cursor at which it gave up.

pub mod branch;
pub mod entities;
pub mod expand;
pub mod laws;
pub mod parser;
pub mod primitives;
pub mod repeat;
pub mod sequence;
pub mod session;
pub mod text;
pub mod transform;

pub use crate::entities::EntityTable;
pub use crate::session::{Parse, ParseResult, Parser};
