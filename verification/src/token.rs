//! Tokens: the lexical categories of the language, with their byte spans.
use vstd::prelude::*;
use crate::text::{dec, debug_str, push_str, push_dec, push_debug_str};

verus! {

#[derive(Debug, Clone, PartialEq, Eq)]
pub enum TokenKind {
    Vector,
    Wallet,
    Bind,
    Certify,
    Transfer,
    Drain,
    Project,
    Reconstruct,
    Query,
    Record,
    Contract,
    Action,
    With,
    To,
    Amount,
    By,
    Into,
    From,
    Policy,
    Ctx,
    Space,
    Op,
    Risk,
    ThresholdVersion,
    Outcome,
    Gain,
    Loss,
    Partial,
    Release,
    Staged,
    As,
    Eq,
    Colon,
    Semi,
    Comma,
    Dot,
    LParen,
    RParen,
    LBrace,
    RBrace,
    Integer(u128),
    String(String),
    Ident(String),
    Eof,
}

#[derive(Debug, Clone, PartialEq, Eq)]
pub struct Token {
    pub kind: TokenKind,
    pub start: usize,
    pub end: usize,
}

impl Token {
    pub fn new(kind: TokenKind, start: usize, end: usize) -> (r: Self)
        ensures
            r.kind == kind,
            r.start == start,
            r.end == end,
    {
        Token { kind, start, end }
    }
}

/// The name of a variant without data.
pub open spec fn unit_kind_name(k: TokenKind) -> Seq<char> {
    match k {
        TokenKind::Vector => "Vector"@,
        TokenKind::Wallet => "Wallet"@,
        TokenKind::Bind => "Bind"@,
        TokenKind::Certify => "Certify"@,
        TokenKind::Transfer => "Transfer"@,
        TokenKind::Drain => "Drain"@,
        TokenKind::Project => "Project"@,
        TokenKind::Reconstruct => "Reconstruct"@,
        TokenKind::Query => "Query"@,
        TokenKind::Record => "Record"@,
        TokenKind::Contract => "Contract"@,
        TokenKind::Action => "Action"@,
        TokenKind::With => "With"@,
        TokenKind::To => "To"@,
        TokenKind::Amount => "Amount"@,
        TokenKind::By => "By"@,
        TokenKind::Into => "Into"@,
        TokenKind::From => "From"@,
        TokenKind::Policy => "Policy"@,
        TokenKind::Ctx => "Ctx"@,
        TokenKind::Space => "Space"@,
        TokenKind::Op => "Op"@,
        TokenKind::Risk => "Risk"@,
        TokenKind::ThresholdVersion => "ThresholdVersion"@,
        TokenKind::Outcome => "Outcome"@,
        TokenKind::Gain => "Gain"@,
        TokenKind::Loss => "Loss"@,
        TokenKind::Partial => "Partial"@,
        TokenKind::Release => "Release"@,
        TokenKind::Staged => "Staged"@,
        TokenKind::As => "As"@,
        TokenKind::Eq => "Eq"@,
        TokenKind::Colon => "Colon"@,
        TokenKind::Semi => "Semi"@,
        TokenKind::Comma => "Comma"@,
        TokenKind::Dot => "Dot"@,
        TokenKind::LParen => "LParen"@,
        TokenKind::RParen => "RParen"@,
        TokenKind::LBrace => "LBrace"@,
        TokenKind::RBrace => "RBrace"@,
        TokenKind::Eof => "Eof"@,
        _ => Seq::empty(),
    }
}

/// `Debug` of a token kind.
pub open spec fn token_kind_debug(k: TokenKind) -> Seq<char> {
    match k {
        TokenKind::Integer(v) => "Integer("@ + dec(v as nat) + ")"@,
        TokenKind::String(s) => "String("@ + debug_str(s@) + ")"@,
        TokenKind::Ident(s) => "Ident("@ + debug_str(s@) + ")"@,
        _ => unit_kind_name(k),
    }
}

impl TokenKind {
    /// `Debug` of the kind, as a string.
    pub fn debug_string(&self) -> (r: String)
        ensures
            r@ == token_kind_debug(*self),
    {
        let mut out = String::new();
        match self {
            TokenKind::Integer(v) => {
                push_str(&mut out, "Integer(");
                push_dec(&mut out, *v);
                push_str(&mut out, ")");
            },
            TokenKind::String(s) => {
                push_str(&mut out, "String(");
                push_debug_str(&mut out, s.as_str());
                push_str(&mut out, ")");
            },
            TokenKind::Ident(s) => {
                push_str(&mut out, "Ident(");
                push_debug_str(&mut out, s.as_str());
                push_str(&mut out, ")");
            },
            TokenKind::Vector => push_str(&mut out, "Vector"),
            TokenKind::Wallet => push_str(&mut out, "Wallet"),
            TokenKind::Bind => push_str(&mut out, "Bind"),
            TokenKind::Certify => push_str(&mut out, "Certify"),
            TokenKind::Transfer => push_str(&mut out, "Transfer"),
            TokenKind::Drain => push_str(&mut out, "Drain"),
            TokenKind::Project => push_str(&mut out, "Project"),
            TokenKind::Reconstruct => push_str(&mut out, "Reconstruct"),
            TokenKind::Query => push_str(&mut out, "Query"),
            TokenKind::Record => push_str(&mut out, "Record"),
            TokenKind::Contract => push_str(&mut out, "Contract"),
            TokenKind::Action => push_str(&mut out, "Action"),
            TokenKind::With => push_str(&mut out, "With"),
            TokenKind::To => push_str(&mut out, "To"),
            TokenKind::Amount => push_str(&mut out, "Amount"),
            TokenKind::By => push_str(&mut out, "By"),
            TokenKind::Into => push_str(&mut out, "Into"),
            TokenKind::From => push_str(&mut out, "From"),
            TokenKind::Policy => push_str(&mut out, "Policy"),
            TokenKind::Ctx => push_str(&mut out, "Ctx"),
            TokenKind::Space => push_str(&mut out, "Space"),
            TokenKind::Op => push_str(&mut out, "Op"),
            TokenKind::Risk => push_str(&mut out, "Risk"),
            TokenKind::ThresholdVersion => push_str(&mut out, "ThresholdVersion"),
            TokenKind::Outcome => push_str(&mut out, "Outcome"),
            TokenKind::Gain => push_str(&mut out, "Gain"),
            TokenKind::Loss => push_str(&mut out, "Loss"),
            TokenKind::Partial => push_str(&mut out, "Partial"),
            TokenKind::Release => push_str(&mut out, "Release"),
            TokenKind::Staged => push_str(&mut out, "Staged"),
            TokenKind::As => push_str(&mut out, "As"),
            TokenKind::Eq => push_str(&mut out, "Eq"),
            TokenKind::Colon => push_str(&mut out, "Colon"),
            TokenKind::Semi => push_str(&mut out, "Semi"),
            TokenKind::Comma => push_str(&mut out, "Comma"),
            TokenKind::Dot => push_str(&mut out, "Dot"),
            TokenKind::LParen => push_str(&mut out, "LParen"),
            TokenKind::RParen => push_str(&mut out, "RParen"),
            TokenKind::LBrace => push_str(&mut out, "LBrace"),
            TokenKind::RBrace => push_str(&mut out, "RBrace"),
            TokenKind::Eof => push_str(&mut out, "Eof"),
        }
        out
    }
}

} // verus!
verus! {

/// A token kind with its text as a character sequence.
pub enum TokenKindView {
    /// A kind without text (keywords, punctuation, numbers, the end).
    Kind(TokenKind),
    Str(Seq<char>),
    Ident(Seq<char>),
}

impl View for TokenKind {
    type V = TokenKindView;

    open spec fn view(&self) -> TokenKindView {
        match *self {
            TokenKind::String(s) => TokenKindView::Str(s@),
            TokenKind::Ident(s) => TokenKindView::Ident(s@),
            k => TokenKindView::Kind(k),
        }
    }
}

pub struct TokenView {
    pub kind: TokenKindView,
    pub start: usize,
    pub end: usize,
}

impl View for Token {
    type V = TokenView;

    open spec fn view(&self) -> TokenView {
        TokenView { kind: self.kind@, start: self.start, end: self.end }
    }
}

/// The views of a sequence of tokens.
pub open spec fn token_views(ts: Seq<Token>) -> Seq<TokenView> {
    ts.map_values(|t: Token| t@)
}

} // verus!
verus! {

/// The word that a keyword is spelled with; `None` for every other kind.
pub open spec fn keyword_name(k: TokenKind) -> Option<Seq<char>> {
    match k {
        TokenKind::Vector => Some("vector"@),
        TokenKind::Wallet => Some("wallet"@),
        TokenKind::Bind => Some("bind"@),
        TokenKind::Certify => Some("certify"@),
        TokenKind::Transfer => Some("transfer"@),
        TokenKind::Drain => Some("drain"@),
        TokenKind::Project => Some("project"@),
        TokenKind::Reconstruct => Some("reconstruct"@),
        TokenKind::Query => Some("query"@),
        TokenKind::Record => Some("record"@),
        TokenKind::Contract => Some("contract"@),
        TokenKind::Action => Some("action"@),
        TokenKind::With => Some("with"@),
        TokenKind::To => Some("to"@),
        TokenKind::Amount => Some("amount"@),
        TokenKind::By => Some("by"@),
        TokenKind::Into => Some("into"@),
        TokenKind::From => Some("from"@),
        TokenKind::Policy => Some("policy"@),
        TokenKind::Ctx => Some("ctx"@),
        TokenKind::Space => Some("space"@),
        TokenKind::Op => Some("op"@),
        TokenKind::Risk => Some("risk"@),
        TokenKind::ThresholdVersion => Some("threshold_version"@),
        TokenKind::Outcome => Some("outcome"@),
        TokenKind::Gain => Some("gain"@),
        TokenKind::Loss => Some("loss"@),
        TokenKind::Partial => Some("partial"@),
        TokenKind::Release => Some("release"@),
        TokenKind::Staged => Some("staged"@),
        TokenKind::As => Some("as"@),
        _ => None,
    }
}

/// The word that a keyword is spelled with, if the kind is a keyword.
pub fn keyword_word(k: &TokenKind) -> (r: Option<&'static str>)
    ensures
        match r {
            Some(w) => keyword_name(*k) == Some(w@),
            None => keyword_name(*k) is None,
        },
{
    match k {
        TokenKind::Vector => Some("vector"),
        TokenKind::Wallet => Some("wallet"),
        TokenKind::Bind => Some("bind"),
        TokenKind::Certify => Some("certify"),
        TokenKind::Transfer => Some("transfer"),
        TokenKind::Drain => Some("drain"),
        TokenKind::Project => Some("project"),
        TokenKind::Reconstruct => Some("reconstruct"),
        TokenKind::Query => Some("query"),
        TokenKind::Record => Some("record"),
        TokenKind::Contract => Some("contract"),
        TokenKind::Action => Some("action"),
        TokenKind::With => Some("with"),
        TokenKind::To => Some("to"),
        TokenKind::Amount => Some("amount"),
        TokenKind::By => Some("by"),
        TokenKind::Into => Some("into"),
        TokenKind::From => Some("from"),
        TokenKind::Policy => Some("policy"),
        TokenKind::Ctx => Some("ctx"),
        TokenKind::Space => Some("space"),
        TokenKind::Op => Some("op"),
        TokenKind::Risk => Some("risk"),
        TokenKind::ThresholdVersion => Some("threshold_version"),
        TokenKind::Outcome => Some("outcome"),
        TokenKind::Gain => Some("gain"),
        TokenKind::Loss => Some("loss"),
        TokenKind::Partial => Some("partial"),
        TokenKind::Release => Some("release"),
        TokenKind::Staged => Some("staged"),
        TokenKind::As => Some("as"),
        _ => None,
    }
}

} // verus!
