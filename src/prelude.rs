//! The items most parsers need, for import in one line.
pub use crate::collection::{Collection, Input};
pub use crate::cursor::Cursor;
pub use crate::error::{Error, ErrorKind, ErrorMessage, ErrorSpan, ErrorWithContext};
pub use crate::parser::{AResult, Parser};
pub use crate::slice::Slice;
pub use crate::span::{ByteSpan, Span, StrSpan};
