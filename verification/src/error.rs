//! Parse and runtime errors, and the messages that describe them.
use vstd::prelude::*;
use crate::text::{dec, debug_str, push_str, push_dec, push_char, push_debug_str};

verus! {

#[derive(Debug, Clone, Copy, PartialEq, Eq, Structural)]
pub struct Span {
    pub start: usize,
    pub end: usize,
}

impl Span {
    pub fn new(start: usize, end: usize) -> (r: Self)
        ensures
            r.start == start,
            r.end == end,
    {
        Span { start, end }
    }
}

#[derive(Debug, Clone, PartialEq, Eq)]
pub enum ParseErrorKind {
    UnexpectedEof,
    UnexpectedToken { expected: &'static str, found: String },
    InvalidNumber(String),
    InvalidString(String),
    Message(String),
}

#[derive(Debug, Clone, PartialEq, Eq)]
pub struct ParseError {
    pub span: Span,
    pub kind: ParseErrorKind,
}

impl ParseError {
    pub fn new(span: Span, kind: ParseErrorKind) -> (r: Self)
        ensures
            r.span == span,
            r.kind == kind,
    {
        ParseError { span, kind }
    }
}

/// `Debug` of a parse error kind.
pub open spec fn parse_error_kind_debug(k: ParseErrorKind) -> Seq<char> {
    match k {
        ParseErrorKind::UnexpectedEof => "UnexpectedEof"@,
        ParseErrorKind::UnexpectedToken { expected, found } => "UnexpectedToken { expected: "@
            + debug_str(expected@) + ", found: "@ + debug_str(found@) + " }"@,
        ParseErrorKind::InvalidNumber(v) => "InvalidNumber("@ + debug_str(v@) + ")"@,
        ParseErrorKind::InvalidString(v) => "InvalidString("@ + debug_str(v@) + ")"@,
        ParseErrorKind::Message(v) => "Message("@ + debug_str(v@) + ")"@,
    }
}

/// ` at {start}..{end}`.
pub open spec fn span_suffix(s: Span) -> Seq<char> {
    " at "@ + dec(s.start as nat) + ".."@ + dec(s.end as nat)
}

/// The message of a parse error.
pub open spec fn parse_error_message(e: ParseErrorView) -> Seq<char> {
    match e.kind {
        ParseErrorKindView::UnexpectedEof => "unexpected end of file"@ + span_suffix(e.span),
        ParseErrorKindView::UnexpectedToken { expected, found } => "unexpected token `"@ + found + "`"@
            + span_suffix(e.span) + ", expected "@ + expected,
        ParseErrorKindView::InvalidNumber(v) => "invalid number `"@ + v + "`"@ + span_suffix(e.span),
        ParseErrorKindView::InvalidString(v) => "invalid string `"@ + v + "`"@ + span_suffix(e.span),
        ParseErrorKindView::Message(m) => m + span_suffix(e.span),
    }
}

fn push_span_suffix(out: &mut String, s: Span)
    ensures
        final(out)@ == old(out)@ + span_suffix(s),
{
    push_str(out, " at ");
    push_dec(out, s.start as u128);
    push_str(out, "..");
    push_dec(out, s.end as u128);
}

impl ParseErrorKind {
    /// `Debug` of the kind, as a string.
    pub fn debug_string(&self) -> (r: String)
        ensures
            r@ == parse_error_kind_debug(*self),
    {
        let mut out = String::new();
        match self {
            ParseErrorKind::UnexpectedEof => push_str(&mut out, "UnexpectedEof"),
            ParseErrorKind::UnexpectedToken { expected, found } => {
                push_str(&mut out, "UnexpectedToken { expected: ");
                push_debug_str(&mut out, expected);
                push_str(&mut out, ", found: ");
                push_debug_str(&mut out, found.as_str());
                push_str(&mut out, " }");
            },
            ParseErrorKind::InvalidNumber(v) => {
                push_str(&mut out, "InvalidNumber(");
                push_debug_str(&mut out, v.as_str());
                push_str(&mut out, ")");
            },
            ParseErrorKind::InvalidString(v) => {
                push_str(&mut out, "InvalidString(");
                push_debug_str(&mut out, v.as_str());
                push_str(&mut out, ")");
            },
            ParseErrorKind::Message(v) => {
                push_str(&mut out, "Message(");
                push_debug_str(&mut out, v.as_str());
                push_str(&mut out, ")");
            },
        }
        out
    }
}

impl ParseError {
    /// The message that describes the error (what `Display` would write).
    pub fn message(&self) -> (r: String)
        ensures
            r@ == parse_error_message(self@),
    {
        let mut out = String::new();
        match &self.kind {
            ParseErrorKind::UnexpectedEof => {
                push_str(&mut out, "unexpected end of file");
                push_span_suffix(&mut out, self.span);
            },
            ParseErrorKind::UnexpectedToken { expected, found } => {
                push_str(&mut out, "unexpected token `");
                push_str(&mut out, found.as_str());
                push_str(&mut out, "`");
                push_span_suffix(&mut out, self.span);
                push_str(&mut out, ", expected ");
                push_str(&mut out, expected);
            },
            ParseErrorKind::InvalidNumber(v) => {
                push_str(&mut out, "invalid number `");
                push_str(&mut out, v.as_str());
                push_str(&mut out, "`");
                push_span_suffix(&mut out, self.span);
            },
            ParseErrorKind::InvalidString(v) => {
                push_str(&mut out, "invalid string `");
                push_str(&mut out, v.as_str());
                push_str(&mut out, "`");
                push_span_suffix(&mut out, self.span);
            },
            ParseErrorKind::Message(m) => {
                push_str(&mut out, m.as_str());
                push_span_suffix(&mut out, self.span);
            },
        }
        out
    }
}

#[derive(Debug, Clone, PartialEq, Eq)]
pub enum RuntimeErrorKind {
    Parse(ParseErrorKind),
    DuplicateSymbol(String),
    UnknownSymbol(String),
    TypeMismatch { expected: String, found: String },
    Validation(String),
    InsufficientBalance { name: String, requested: u128, available: u128 },
    CertificationFailed { name: String, ratio: String, threshold: String },
    ProjectionMissing(String),
    ProjectionConsumed(String),
    ContractMissing(String),
    RecordMissing(String),
    InvalidOperation(String),
    ImmutableViolation(String),
    ZeroNormalization,
}

#[derive(Debug, Clone, PartialEq, Eq)]
pub struct RuntimeError {
    pub span: Option<Span>,
    pub kind: RuntimeErrorKind,
}

impl RuntimeError {
    pub fn new(kind: RuntimeErrorKind) -> (r: Self)
        ensures
            r.span is None,
            r.kind == kind,
    {
        RuntimeError { span: None, kind }
    }

    pub fn with_span(kind: RuntimeErrorKind, span: Span) -> (r: Self)
        ensures
            r.span == Some(span),
            r.kind == kind,
    {
        RuntimeError { span: Some(span), kind }
    }
}

/// The message of a runtime error.
pub open spec fn runtime_error_message(e: RuntimeError) -> Seq<char> {
    match e.kind {
        RuntimeErrorKind::Parse(k) => "parse error: "@ + parse_error_kind_debug(k),
        RuntimeErrorKind::DuplicateSymbol(s) => "duplicate symbol `"@ + s@ + "`"@,
        RuntimeErrorKind::UnknownSymbol(s) => "unknown symbol `"@ + s@ + "`"@,
        RuntimeErrorKind::TypeMismatch { expected, found } => "type mismatch: expected "@ + expected@
            + ", found "@ + found@,
        RuntimeErrorKind::Validation(m) => "validation failed: "@ + m@,
        RuntimeErrorKind::InsufficientBalance { name, requested, available } =>
            "insufficient balance in `"@ + name@ + "`: requested "@ + dec(requested as nat)
            + ", available "@ + dec(available as nat),
        RuntimeErrorKind::CertificationFailed { name, ratio, threshold } =>
            "certification failed for `"@ + name@ + "`: ratio "@ + ratio@ + " below threshold "@
            + threshold@,
        RuntimeErrorKind::ProjectionMissing(id) => "projection `"@ + id@ + "` not found"@,
        RuntimeErrorKind::ProjectionConsumed(id) => "projection `"@ + id@ + "` was already consumed"@,
        RuntimeErrorKind::ContractMissing(id) => "contract `"@ + id@ + "` not found"@,
        RuntimeErrorKind::RecordMissing(id) => "record `"@ + id@ + "` not found"@,
        RuntimeErrorKind::InvalidOperation(m) => "invalid operation: "@ + m@,
        RuntimeErrorKind::ImmutableViolation(m) => "immutable violation: "@ + m@,
        RuntimeErrorKind::ZeroNormalization => "normalization of the zero vector is undefined"@,
    }
}

impl RuntimeError {
    /// The message that describes the error (what `Display` would write).
    pub fn message(&self) -> (r: String)
        ensures
            r@ == runtime_error_message(*self),
    {
        let mut out = String::new();
        match &self.kind {
            RuntimeErrorKind::Parse(k) => {
                push_str(&mut out, "parse error: ");
                let d = k.debug_string();
                push_str(&mut out, d.as_str());
            },
            RuntimeErrorKind::DuplicateSymbol(s) => {
                push_str(&mut out, "duplicate symbol `");
                push_str(&mut out, s.as_str());
                push_str(&mut out, "`");
            },
            RuntimeErrorKind::UnknownSymbol(s) => {
                push_str(&mut out, "unknown symbol `");
                push_str(&mut out, s.as_str());
                push_str(&mut out, "`");
            },
            RuntimeErrorKind::TypeMismatch { expected, found } => {
                push_str(&mut out, "type mismatch: expected ");
                push_str(&mut out, expected.as_str());
                push_str(&mut out, ", found ");
                push_str(&mut out, found.as_str());
            },
            RuntimeErrorKind::Validation(m) => {
                push_str(&mut out, "validation failed: ");
                push_str(&mut out, m.as_str());
            },
            RuntimeErrorKind::InsufficientBalance { name, requested, available } => {
                push_str(&mut out, "insufficient balance in `");
                push_str(&mut out, name.as_str());
                push_str(&mut out, "`: requested ");
                push_dec(&mut out, *requested);
                push_str(&mut out, ", available ");
                push_dec(&mut out, *available);
            },
            RuntimeErrorKind::CertificationFailed { name, ratio, threshold } => {
                push_str(&mut out, "certification failed for `");
                push_str(&mut out, name.as_str());
                push_str(&mut out, "`: ratio ");
                push_str(&mut out, ratio.as_str());
                push_str(&mut out, " below threshold ");
                push_str(&mut out, threshold.as_str());
            },
            RuntimeErrorKind::ProjectionMissing(id) => {
                push_str(&mut out, "projection `");
                push_str(&mut out, id.as_str());
                push_str(&mut out, "` not found");
            },
            RuntimeErrorKind::ProjectionConsumed(id) => {
                push_str(&mut out, "projection `");
                push_str(&mut out, id.as_str());
                push_str(&mut out, "` was already consumed");
            },
            RuntimeErrorKind::ContractMissing(id) => {
                push_str(&mut out, "contract `");
                push_str(&mut out, id.as_str());
                push_str(&mut out, "` not found");
            },
            RuntimeErrorKind::RecordMissing(id) => {
                push_str(&mut out, "record `");
                push_str(&mut out, id.as_str());
                push_str(&mut out, "` not found");
            },
            RuntimeErrorKind::InvalidOperation(m) => {
                push_str(&mut out, "invalid operation: ");
                push_str(&mut out, m.as_str());
            },
            RuntimeErrorKind::ImmutableViolation(m) => {
                push_str(&mut out, "immutable violation: ");
                push_str(&mut out, m.as_str());
            },
            RuntimeErrorKind::ZeroNormalization => {
                push_str(&mut out, "normalization of the zero vector is undefined");
            },
        }
        out
    }
}

} // verus!
verus! {

/// A parse error kind with its texts as character sequences.
pub enum ParseErrorKindView {
    UnexpectedEof,
    UnexpectedToken { expected: Seq<char>, found: Seq<char> },
    InvalidNumber(Seq<char>),
    InvalidString(Seq<char>),
    Message(Seq<char>),
}

impl View for ParseErrorKind {
    type V = ParseErrorKindView;

    open spec fn view(&self) -> ParseErrorKindView {
        match *self {
            ParseErrorKind::UnexpectedEof => ParseErrorKindView::UnexpectedEof,
            ParseErrorKind::UnexpectedToken { expected, found } => ParseErrorKindView::UnexpectedToken {
                expected: expected@,
                found: found@,
            },
            ParseErrorKind::InvalidNumber(v) => ParseErrorKindView::InvalidNumber(v@),
            ParseErrorKind::InvalidString(v) => ParseErrorKindView::InvalidString(v@),
            ParseErrorKind::Message(v) => ParseErrorKindView::Message(v@),
        }
    }
}

/// A parse error with its texts as character sequences.
pub struct ParseErrorView {
    pub span: Span,
    pub kind: ParseErrorKindView,
}

impl View for ParseError {
    type V = ParseErrorView;

    open spec fn view(&self) -> ParseErrorView {
        ParseErrorView { span: self.span, kind: self.kind@ }
    }
}

/// A runtime error kind with its texts as character sequences.
pub enum RuntimeErrorKindView {
    Parse(ParseErrorKindView),
    DuplicateSymbol(Seq<char>),
    UnknownSymbol(Seq<char>),
    TypeMismatch { expected: Seq<char>, found: Seq<char> },
    Validation(Seq<char>),
    InsufficientBalance { name: Seq<char>, requested: u128, available: u128 },
    CertificationFailed { name: Seq<char>, ratio: Seq<char>, threshold: Seq<char> },
    ProjectionMissing(Seq<char>),
    ProjectionConsumed(Seq<char>),
    ContractMissing(Seq<char>),
    RecordMissing(Seq<char>),
    InvalidOperation(Seq<char>),
    ImmutableViolation(Seq<char>),
    ZeroNormalization,
}

impl View for RuntimeErrorKind {
    type V = RuntimeErrorKindView;

    open spec fn view(&self) -> RuntimeErrorKindView {
        match *self {
            RuntimeErrorKind::Parse(k) => RuntimeErrorKindView::Parse(k@),
            RuntimeErrorKind::DuplicateSymbol(s) => RuntimeErrorKindView::DuplicateSymbol(s@),
            RuntimeErrorKind::UnknownSymbol(s) => RuntimeErrorKindView::UnknownSymbol(s@),
            RuntimeErrorKind::TypeMismatch { expected, found } => RuntimeErrorKindView::TypeMismatch {
                expected: expected@,
                found: found@,
            },
            RuntimeErrorKind::Validation(s) => RuntimeErrorKindView::Validation(s@),
            RuntimeErrorKind::InsufficientBalance { name, requested, available } =>
                RuntimeErrorKindView::InsufficientBalance { name: name@, requested, available },
            RuntimeErrorKind::CertificationFailed { name, ratio, threshold } =>
                RuntimeErrorKindView::CertificationFailed { name: name@, ratio: ratio@, threshold: threshold@ },
            RuntimeErrorKind::ProjectionMissing(s) => RuntimeErrorKindView::ProjectionMissing(s@),
            RuntimeErrorKind::ProjectionConsumed(s) => RuntimeErrorKindView::ProjectionConsumed(s@),
            RuntimeErrorKind::ContractMissing(s) => RuntimeErrorKindView::ContractMissing(s@),
            RuntimeErrorKind::RecordMissing(s) => RuntimeErrorKindView::RecordMissing(s@),
            RuntimeErrorKind::InvalidOperation(s) => RuntimeErrorKindView::InvalidOperation(s@),
            RuntimeErrorKind::ImmutableViolation(s) => RuntimeErrorKindView::ImmutableViolation(s@),
            RuntimeErrorKind::ZeroNormalization => RuntimeErrorKindView::ZeroNormalization,
        }
    }
}

/// A runtime error with its texts as character sequences.
pub struct RuntimeErrorView {
    pub span: Option<Span>,
    pub kind: RuntimeErrorKindView,
}

impl View for RuntimeError {
    type V = RuntimeErrorView;

    open spec fn view(&self) -> RuntimeErrorView {
        RuntimeErrorView { span: self.span, kind: self.kind@ }
    }
}

/// A runtime error without a span.
pub open spec fn plain_error(k: RuntimeErrorKindView) -> RuntimeErrorView {
    RuntimeErrorView { span: None, kind: k }
}

} // verus!
