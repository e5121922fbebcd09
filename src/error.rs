//! Error kinds, their numeric codes, and error values that carry the
//! location of a failure.
use vstd::prelude::*;

verus! {

/// Stable numeric encoding of an [`ErrorKind`].
#[derive(Clone, Copy, Debug, PartialEq, Eq, Structural, Hash, PartialOrd, Ord)]
pub struct StatusCode(pub u16);

/// The closed set of failure categories.
#[derive(Clone, Copy, Debug, PartialEq, Eq, Structural, Hash, PartialOrd, Ord)]
pub enum ErrorKind {
    /// Reached end of input, or EOF, while waiting on data.
    EndOfInput,
    /// Type conversion operation failed due to incompatible types.
    IncompatibleTypes,
    /// Unrecognized format or malformed data.
    MalformedData,
    /// Missing expected or required data.
    MissingData,
    /// An unknown or explicitly unspecified error has occurred.
    Unknown,
}

/// The code of each kind.
pub open spec fn code_of(kind: ErrorKind) -> u16 {
    match kind {
        ErrorKind::EndOfInput => 0,
        ErrorKind::IncompatibleTypes => 1,
        ErrorKind::MalformedData => 2,
        ErrorKind::MissingData => 3,
        ErrorKind::Unknown => 4,
    }
}

/// The kind of each code; a code that names no kind stands for `Unknown`.
pub open spec fn kind_of(code: u16) -> ErrorKind {
    if code == 0 {
        ErrorKind::EndOfInput
    } else if code == 1 {
        ErrorKind::IncompatibleTypes
    } else if code == 2 {
        ErrorKind::MalformedData
    } else if code == 3 {
        ErrorKind::MissingData
    } else {
        ErrorKind::Unknown
    }
}

/// The human-readable description of each kind.
pub open spec fn description_of(kind: ErrorKind) -> Seq<char> {
    match kind {
        ErrorKind::EndOfInput => "Reached end of input, or EOF, while waiting on data."@,
        ErrorKind::IncompatibleTypes => "Input and output types must be compatible."@,
        ErrorKind::MalformedData => "Received invalid or malformed data."@,
        ErrorKind::MissingData => "Received incomplete or missing data."@,
        ErrorKind::Unknown => "Failure caused by unknown or unexpected error."@,
    }
}

impl ErrorKind {
    /// Returns the description of the error kind.
    pub fn as_str(&self) -> (r: &'static str)
        ensures
            r@ == description_of(*self),
    {
        match *self {
            ErrorKind::EndOfInput => "Reached end of input, or EOF, while waiting on data.",
            ErrorKind::IncompatibleTypes => "Input and output types must be compatible.",
            ErrorKind::MalformedData => "Received invalid or malformed data.",
            ErrorKind::MissingData => "Received incomplete or missing data.",
            ErrorKind::Unknown => "Failure caused by unknown or unexpected error.",
        }
    }

    /// Returns the status code of the error kind.
    pub fn as_code(&self) -> (r: StatusCode)
        ensures
            r.0 == code_of(*self),
    {
        match *self {
            ErrorKind::EndOfInput => StatusCode(0),
            ErrorKind::IncompatibleTypes => StatusCode(1),
            ErrorKind::MalformedData => StatusCode(2),
            ErrorKind::MissingData => StatusCode(3),
            ErrorKind::Unknown => StatusCode(4),
        }
    }
}

impl Default for ErrorKind {
    fn default() -> (r: ErrorKind)
        ensures
            r == ErrorKind::Unknown,
    {
        ErrorKind::Unknown
    }
}

impl From<StatusCode> for ErrorKind {
    fn from(code: StatusCode) -> (r: ErrorKind) {
        match code.0 {
            0 => ErrorKind::EndOfInput,
            1 => ErrorKind::IncompatibleTypes,
            2 => ErrorKind::MalformedData,
            3 => ErrorKind::MissingData,
            _ => ErrorKind::Unknown,
        }
    }
}

impl vstd::std_specs::convert::FromSpecImpl<StatusCode> for ErrorKind {
    open spec fn obeys_from_spec() -> bool {
        true
    }

    open spec fn from_spec(code: StatusCode) -> ErrorKind {
        kind_of(code.0)
    }
}

impl From<ErrorKind> for StatusCode {
    fn from(kind: ErrorKind) -> (r: StatusCode) {
        kind.as_code()
    }
}

impl vstd::std_specs::convert::FromSpecImpl<ErrorKind> for StatusCode {
    open spec fn obeys_from_spec() -> bool {
        true
    }

    open spec fn from_spec(kind: ErrorKind) -> StatusCode {
        StatusCode(code_of(kind))
    }
}

/// Decoding the code of a kind gives the kind back.
pub proof fn lemma_code_round_trip(kind: ErrorKind)
    ensures
        kind_of(code_of(kind)) == kind,
{
}

/// An error that records only the input at the point of failure and a
/// status code.
#[derive(Clone, Copy, Debug, PartialEq, Eq, Hash)]
pub struct MinimalError<I> {
    input: I,
    status_code: StatusCode,
}

impl<I> MinimalError<I> {
    /// The input at the point of failure.
    pub closed spec fn spec_input(self) -> I {
        self.input
    }

    /// The status code.
    pub closed spec fn spec_status_code(self) -> StatusCode {
        self.status_code
    }

    /// Creates an error at `input` with `status_code`.
    pub fn new(input: I, status_code: StatusCode) -> (r: Self)
        ensures
            r.spec_input() == input,
            r.spec_status_code() == status_code,
    {
        MinimalError { input, status_code }
    }

    /// Returns the input at the point of failure.
    pub fn input(&self) -> (r: &I)
        ensures
            *r == self.spec_input(),
    {
        &self.input
    }

    /// Returns the status code.
    pub fn status_code(&self) -> (r: StatusCode)
        ensures
            r == self.spec_status_code(),
    {
        self.status_code
    }

    /// Returns the kind that the status code stands for.
    pub fn kind(&self) -> (r: ErrorKind)
        ensures
            r == kind_of(self.spec_status_code().0),
    {
        ErrorKind::from(self.status_code)
    }
}

/// The byte range `start..end` of an input at which an error occurred.
#[derive(Clone, Copy, Debug, PartialEq, Eq, Hash)]
pub struct ErrorSpan<'a> {
    input: &'a [u8],
    start: usize,
    end: usize,
}

impl<'a> ErrorSpan<'a> {
    #[verifier::type_invariant]
    spec fn well_formed(self) -> bool {
        self.start <= self.end
    }

    /// The input the error refers to.
    pub closed spec fn spec_input(self) -> Seq<u8> {
        self.input@
    }

    /// The first offset of the failing range.
    pub closed spec fn spec_start(self) -> usize {
        self.start
    }

    /// The offset one past the failing range.
    pub closed spec fn spec_end(self) -> usize {
        self.end
    }

    /// Creates an error span over `start..end` of `input`.
    pub fn new(input: &'a [u8], start: usize, end: usize) -> (r: Self)
        requires
            start <= end,
        ensures
            r.spec_input() == input@,
            r.spec_start() == start,
            r.spec_end() == end,
    {
        ErrorSpan { input, start, end }
    }

    /// Returns the input the error refers to.
    pub fn input(&self) -> (r: &'a [u8])
        ensures
            r@ == self.spec_input(),
    {
        self.input
    }

    /// Returns the first offset of the failing range.
    pub fn start(&self) -> (r: usize)
        ensures
            r == self.spec_start(),
            r <= self.spec_end(),
    {
        proof {
            use_type_invariant(self);
        }
        self.start
    }

    /// Returns the offset one past the failing range.
    pub fn end(&self) -> (r: usize)
        ensures
            r == self.spec_end(),
            self.spec_start() <= r,
    {
        proof {
            use_type_invariant(self);
        }
        self.end
    }
}

/// Errors that parsers return: each carries a kind and the input at which
/// it occurred, and may wrap the error of an inner parser.
pub trait Error<I>: Sized {
    /// The kind of the outermost layer.
    spec fn spec_kind(&self) -> ErrorKind;

    /// The input at which the outermost layer occurred.
    spec fn spec_location(&self) -> I;

    /// The wrapped inner error, if any.
    spec fn spec_cause(&self) -> Option<Self>;

    /// Builds an error of `kind` at `input` that wraps nothing.
    fn from_error_kind(input: I, kind: ErrorKind) -> (r: Self)
        ensures
            r.spec_kind() == kind,
            r.spec_location() == input,
            r.spec_cause() is None,
    ;

    /// Builds an error of `kind` at `input` that wraps `other` unchanged.
    fn append(input: I, kind: ErrorKind, other: Self) -> (r: Self)
        ensures
            r.spec_kind() == kind,
            r.spec_location() == input,
            r.spec_cause() == Some(other),
    ;

    /// Chooses between the errors of two alternatives that both failed.
    /// The choice is last-biased: the error of the alternative tried last,
    /// `other`, is returned.
    fn or(self, other: Self) -> (r: Self)
        ensures
            r == other,
    {
        other
    }
}

/// An error with its input, an optional offset range within that input, a
/// status code, and optionally the inner error it wraps.
#[derive(Debug, PartialEq, Eq)]
pub struct ErrorWithContext<I> {
    input: I,
    offset: Option<(usize, usize)>,
    code: u16,
    cause: Option<Box<ErrorWithContext<I>>>,
}

impl<I> ErrorWithContext<I> {
    #[verifier::type_invariant]
    spec fn well_formed(self) -> bool {
        self.offset matches Some((start, end)) ==> start <= end
    }

    /// The input at which the error occurred.
    pub closed spec fn spec_input(self) -> I {
        self.input
    }

    /// The offset range of the failure, if known.
    pub closed spec fn spec_offset(self) -> Option<(usize, usize)> {
        self.offset
    }

    /// The status code.
    pub closed spec fn spec_code(self) -> u16 {
        self.code
    }

    /// The inner error this one wraps, if any.
    pub closed spec fn spec_inner(self) -> Option<ErrorWithContext<I>> {
        match self.cause {
            Some(b) => Some(*b),
            None => None,
        }
    }

    /// The error that wraps `other` with `kind` at `input`.
    pub closed spec fn spec_append(input: I, kind: ErrorKind, other: ErrorWithContext<I>) -> Self {
        ErrorWithContext { input, offset: None, code: code_of(kind), cause: Some(Box::new(other)) }
    }

    /// Creates an error at `input`, with an optional offset range and a
    /// status code, that wraps nothing.
    pub fn new(input: I, offset: Option<(usize, usize)>, code: u16) -> (r: Self)
        requires
            offset matches Some((start, end)) ==> start <= end,
        ensures
            r.spec_input() == input,
            r.spec_offset() == offset,
            r.spec_code() == code,
            r.spec_inner() is None,
    {
        ErrorWithContext { input, offset, code, cause: None }
    }

    /// Returns the kind that the status code stands for; a code that names
    /// no kind gives `Unknown`.
    pub fn kind(&self) -> (r: ErrorKind)
        ensures
            r == kind_of(self.spec_code()),
    {
        match self.code {
            0 => ErrorKind::EndOfInput,
            1 => ErrorKind::IncompatibleTypes,
            2 => ErrorKind::MalformedData,
            3 => ErrorKind::MissingData,
            _ => ErrorKind::Unknown,
        }
    }

    /// Returns the input at which the error occurred.
    pub fn input(&self) -> (r: &I)
        ensures
            *r == self.spec_input(),
    {
        &self.input
    }

    /// Returns the offset range of the failure, if known.
    pub fn offset(&self) -> (r: Option<(usize, usize)>)
        ensures
            r == self.spec_offset(),
            r matches Some((start, end)) ==> start <= end,
    {
        proof {
            use_type_invariant(self);
        }
        self.offset
    }

    /// Returns the status code.
    pub fn code(&self) -> (r: u16)
        ensures
            r == self.spec_code(),
    {
        self.code
    }

    /// Returns the inner error this one wraps, if any.
    pub fn cause(&self) -> (r: Option<&ErrorWithContext<I>>)
        ensures
            r matches Some(e) ==> self.spec_inner() == Some(*e),
            r is None <==> self.spec_inner() is None,
    {
        match &self.cause {
            Some(b) => Some(&**b),
            None => None,
        }
    }

    /// Removes the outer layer, returning the inner error it wraps, if any.
    pub fn into_cause(self) -> (r: Option<ErrorWithContext<I>>)
        ensures
            r == self.spec_inner(),
    {
        match self.cause {
            Some(b) => Some(*b),
            None => None,
        }
    }
}

impl<I> Error<I> for ErrorWithContext<I> {
    open spec fn spec_kind(&self) -> ErrorKind {
        kind_of(self.spec_code())
    }

    open spec fn spec_location(&self) -> I {
        self.spec_input()
    }

    open spec fn spec_cause(&self) -> Option<Self> {
        self.spec_inner()
    }

    fn from_error_kind(input: I, kind: ErrorKind) -> (r: Self) {
        let code = kind.as_code();
        ErrorWithContext { input, offset: None, code: code.0, cause: None }
    }

    fn append(input: I, kind: ErrorKind, other: Self) -> (r: Self)
        ensures
            r == Self::spec_append(input, kind, other),
    {
        let code = kind.as_code();
        ErrorWithContext { input, offset: None, code: code.0, cause: Some(Box::new(other)) }
    }
}

/// Wrapping an error with context and then removing the outer layer gives
/// the error back unchanged, with its kind and its location, while the
/// outer layer carries the new kind and location.
pub proof fn lemma_append_round_trip<I>(input: I, kind: ErrorKind, inner: ErrorWithContext<I>)
    ensures
        ErrorWithContext::spec_append(input, kind, inner).spec_cause() == Some(inner),
        ErrorWithContext::spec_append(input, kind, inner).spec_kind() == kind,
        ErrorWithContext::spec_append(input, kind, inner).spec_location() == input,
        ErrorWithContext::spec_append(input, kind, inner).spec_cause().unwrap().spec_kind()
            == inner.spec_kind(),
        ErrorWithContext::spec_append(input, kind, inner).spec_cause().unwrap().spec_location()
            == inner.spec_location(),
{
}

/// An error kind paired with a fixed message.
#[derive(Clone, Copy, Debug, PartialEq, Eq, Hash)]
pub struct ErrorMessage {
    kind: ErrorKind,
    message: &'static str,
}

impl ErrorMessage {
    /// The message used when none is given.
    pub const DEFAULT_MESSAGE: &'static str = "Unknown error caused by a parser failure has occurred.";

    /// The kind of the error.
    pub closed spec fn spec_kind(self) -> ErrorKind {
        self.kind
    }

    /// The message.
    pub closed spec fn spec_message(self) -> Seq<char> {
        self.message@
    }

    /// Creates a message of `kind` with the text `message`.
    pub fn new(kind: ErrorKind, message: &'static str) -> (r: Self)
        ensures
            r.spec_kind() == kind,
            r.spec_message() == message@,
    {
        ErrorMessage { kind, message }
    }

    /// Returns the kind of the error.
    pub fn kind(&self) -> (r: ErrorKind)
        ensures
            r == self.spec_kind(),
    {
        self.kind
    }

    /// Returns the message.
    pub fn message(&self) -> (r: &'static str)
        ensures
            r@ == self.spec_message(),
    {
        self.message
    }
}

impl Default for ErrorMessage {
    fn default() -> (r: ErrorMessage)
        ensures
            r.spec_kind() == ErrorKind::Unknown,
            r.spec_message() == ErrorMessage::DEFAULT_MESSAGE@,
    {
        ErrorMessage { kind: ErrorKind::Unknown, message: ErrorMessage::DEFAULT_MESSAGE }
    }
}

} // verus!
