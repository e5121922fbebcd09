//! Foundation layer of a parser-combinator toolkit: a position-tracking
//! cursor over a byte buffer, bounds-checked views and spans over byte and
//! text buffers, an indexed enumeration model, and a closed error taxonomy
//! that carries the failure location.
pub mod collection;
pub mod cursor;
pub mod error;
pub mod parser;
pub mod prelude;
pub mod slice;
pub mod span;
pub mod text;

pub use collection::{Bytes, Collection, Input};
pub use cursor::Cursor;
pub use error::{
    Error, ErrorKind, ErrorMessage, ErrorSpan, ErrorWithContext, MinimalError, StatusCode,
};
pub use parser::{AResult, Complete, Mapped, Parser};
pub use slice::{BytesView, Slice};
pub use span::{ByteSpan, Span, StrSpan};
