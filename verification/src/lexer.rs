//! The lexer: source bytes to tokens. Whitespace and `//` and `#` line
//! comments separate tokens; numbers are decimal `u128`; strings are quoted
//! with backslash escapes and read byte by byte.
use vstd::prelude::*;
use crate::error::{ParseError, ParseErrorKind, ParseErrorKindView, ParseErrorView, Span};
use crate::token::{Token, TokenKind, TokenKindView, TokenView, token_views};
use crate::text::{push_char, push_str, str_eq};

verus! {

broadcast use vstd::string::group_string_axioms;

pub open spec fn is_space(c: u8) -> bool {
    c == 32 || c == 10 || c == 13 || c == 9
}

pub open spec fn is_digit(c: u8) -> bool {
    48 <= c <= 57
}

pub open spec fn is_alpha(c: u8) -> bool {
    (65 <= c <= 90) || (97 <= c <= 122)
}

pub open spec fn is_ident_byte(c: u8) -> bool {
    is_digit(c) || is_alpha(c) || c == 95
}

/// The first position from `p` on that is not a space.
pub open spec fn skip_spaces(b: Seq<u8>, p: nat) -> nat
    decreases b.len() - p,
{
    if p < b.len() && is_space(b[p as int]) {
        skip_spaces(b, p + 1)
    } else {
        p
    }
}

/// The position just past the next newline from `p` on, or the end.
pub open spec fn line_end(b: Seq<u8>, p: nat) -> nat
    decreases b.len() - p,
{
    if p >= b.len() {
        p
    } else if b[p as int] == 10 {
        p + 1
    } else {
        line_end(b, p + 1)
    }
}

pub proof fn lemma_skip_spaces(b: Seq<u8>, p: nat)
    ensures
        skip_spaces(b, p) >= p,
        p <= b.len() ==> skip_spaces(b, p) <= b.len(),
    decreases b.len() - p,
{
    if p < b.len() && is_space(b[p as int]) {
        lemma_skip_spaces(b, p + 1);
    }
}

pub proof fn lemma_line_end(b: Seq<u8>, p: nat)
    ensures
        line_end(b, p) >= p,
        p <= b.len() ==> line_end(b, p) <= b.len(),
    decreases b.len() - p,
{
    if p < b.len() && b[p as int] != 10 {
        lemma_line_end(b, p + 1);
    }
}

/// Whether a comment starts at `q`: `//` or `#`.
pub open spec fn comment_at(b: Seq<u8>, q: nat) -> bool {
    (q + 1 < b.len() && b[q as int] == 47 && b[q + 1int] == 47) || (q < b.len() && b[q as int] == 35)
}

/// Where the text after a comment marker at `q` starts.
pub open spec fn comment_body(b: Seq<u8>, q: nat) -> nat {
    if q + 1 < b.len() && b[q as int] == 47 && b[q + 1int] == 47 { q + 2 } else { q + 1 }
}

/// The first position from `p` on that starts neither whitespace nor a comment.
pub open spec fn skip_trivia(b: Seq<u8>, p: nat) -> nat
    decreases b.len() - p,
{
    let q = skip_spaces(b, p);
    if p <= b.len() && comment_at(b, q) {
        proof {
            lemma_skip_spaces(b, p);
            lemma_line_end(b, comment_body(b, q));
        }
        skip_trivia(b, line_end(b, comment_body(b, q)))
    } else {
        q
    }
}

pub proof fn lemma_skip_trivia(b: Seq<u8>, p: nat)
    requires
        p <= b.len(),
    ensures
        p <= skip_trivia(b, p) <= b.len(),
    decreases b.len() - p,
{
    let q = skip_spaces(b, p);
    lemma_skip_spaces(b, p);
    if comment_at(b, q) {
        lemma_line_end(b, comment_body(b, q));
        lemma_skip_trivia(b, line_end(b, comment_body(b, q)));
    }
}

/// The end of the run of bytes satisfying `f` from `p` on.
pub open spec fn run_end(b: Seq<u8>, p: nat, digits: bool) -> nat
    decreases b.len() - p,
{
    if p < b.len() && (if digits { is_digit(b[p as int]) } else { is_ident_byte(b[p as int]) }) {
        run_end(b, p + 1, digits)
    } else {
        p
    }
}

pub proof fn lemma_run_end(b: Seq<u8>, p: nat, digits: bool)
    requires
        p <= b.len(),
    ensures
        p <= run_end(b, p, digits) <= b.len(),
        forall|i: int| p <= i < run_end(b, p, digits) ==> (if digits { is_digit(b[i]) } else { is_ident_byte(b[i]) }),
    decreases b.len() - p,
{
    if p < b.len() && (if digits { is_digit(b[p as int]) } else { is_ident_byte(b[p as int]) }) {
        lemma_run_end(b, p + 1, digits);
    }
}

/// Bytes read as characters, one each.
pub open spec fn byte_chars(s: Seq<u8>) -> Seq<char> {
    s.map_values(|x: u8| x as char)
}

/// The number that decimal digits denote.
pub open spec fn digits_value(s: Seq<u8>) -> nat
    decreases s.len(),
{
    if s.len() == 0 {
        0
    } else {
        digits_value(s.drop_last()) * 10 + (s.last() - 48) as nat
    }
}

/// The keyword spelled by `text`, if it is one.
pub open spec fn keyword_kind(text: Seq<char>) -> Option<TokenKind> {
    if text == "vector"@ { Some(TokenKind::Vector) }
    else if text == "wallet"@ { Some(TokenKind::Wallet) }
    else if text == "bind"@ { Some(TokenKind::Bind) }
    else if text == "certify"@ { Some(TokenKind::Certify) }
    else if text == "transfer"@ { Some(TokenKind::Transfer) }
    else if text == "drain"@ { Some(TokenKind::Drain) }
    else if text == "project"@ { Some(TokenKind::Project) }
    else if text == "reconstruct"@ { Some(TokenKind::Reconstruct) }
    else if text == "query"@ { Some(TokenKind::Query) }
    else if text == "record"@ { Some(TokenKind::Record) }
    else if text == "contract"@ { Some(TokenKind::Contract) }
    else if text == "action"@ { Some(TokenKind::Action) }
    else if text == "with"@ { Some(TokenKind::With) }
    else if text == "to"@ { Some(TokenKind::To) }
    else if text == "amount"@ { Some(TokenKind::Amount) }
    else if text == "by"@ { Some(TokenKind::By) }
    else if text == "into"@ { Some(TokenKind::Into) }
    else if text == "from"@ { Some(TokenKind::From) }
    else if text == "policy"@ { Some(TokenKind::Policy) }
    else if text == "ctx"@ { Some(TokenKind::Ctx) }
    else if text == "space"@ { Some(TokenKind::Space) }
    else if text == "op"@ { Some(TokenKind::Op) }
    else if text == "risk"@ { Some(TokenKind::Risk) }
    else if text == "threshold_version"@ { Some(TokenKind::ThresholdVersion) }
    else if text == "outcome"@ { Some(TokenKind::Outcome) }
    else if text == "gain"@ { Some(TokenKind::Gain) }
    else if text == "loss"@ { Some(TokenKind::Loss) }
    else if text == "partial"@ { Some(TokenKind::Partial) }
    else if text == "release"@ { Some(TokenKind::Release) }
    else if text == "staged"@ { Some(TokenKind::Staged) }
    else if text == "as"@ { Some(TokenKind::As) }
    else { None }
}

/// What a backslash followed by `e` stands for inside a string.
pub open spec fn escape_char(e: u8) -> char {
    if e == 34 { '"' }
    else if e == 92 { '\\' }
    else if e == 110 { '\n' }
    else if e == 114 { '\r' }
    else if e == 116 { '\t' }
    else { e as char }
}

/// Reads the body of a string from `p` (just past the opening quote):
/// `Ok((characters, position past the closing quote))`, or `Err(position)`
/// where the input ends first.
pub open spec fn string_from(b: Seq<u8>, p: nat) -> Result<(Seq<char>, nat), nat>
    decreases b.len() - p,
{
    if p >= b.len() {
        Err(p)
    } else if b[p as int] == 34 {
        Ok((Seq::empty(), p + 1))
    } else if b[p as int] == 92 {
        if p + 1 >= b.len() {
            Err(p + 1)
        } else {
            match string_from(b, p + 2) {
                Ok((cs, q)) => Ok((seq![escape_char(b[p + 1int])] + cs, q)),
                Err(q) => Err(q),
            }
        }
    } else {
        match string_from(b, p + 1) {
            Ok((cs, q)) => Ok((seq![b[p as int] as char] + cs, q)),
            Err(q) => Err(q),
        }
    }
}

pub proof fn lemma_string_from(b: Seq<u8>, p: nat)
    requires
        p <= b.len(),
    ensures
        string_from(b, p) matches Ok((cs, q)) ==> p < q <= b.len(),
        string_from(b, p) matches Err(q) ==> q == b.len(),
    decreases b.len() - p,
{
    if p < b.len() && b[p as int] != 34 {
        if b[p as int] == 92 {
            if p + 1 < b.len() {
                lemma_string_from(b, p + 2);
            }
        } else {
            lemma_string_from(b, p + 1);
        }
    }
}

pub open spec fn tok(k: TokenKindView, start: nat, end: nat) -> TokenView {
    TokenView { kind: k, start: start as usize, end: end as usize }
}

pub open spec fn perr(k: ParseErrorKindView, start: nat, end: nat) -> ParseErrorView {
    ParseErrorView { span: Span { start: start as usize, end: end as usize }, kind: k }
}

/// The kind of a one-byte punctuation token, if `c` is one.
pub open spec fn punct_kind(c: u8) -> Option<TokenKind> {
    if c == 40 { Some(TokenKind::LParen) }
    else if c == 41 { Some(TokenKind::RParen) }
    else if c == 123 { Some(TokenKind::LBrace) }
    else if c == 125 { Some(TokenKind::RBrace) }
    else if c == 58 { Some(TokenKind::Colon) }
    else if c == 59 { Some(TokenKind::Semi) }
    else if c == 44 { Some(TokenKind::Comma) }
    else if c == 46 { Some(TokenKind::Dot) }
    else if c == 61 { Some(TokenKind::Eq) }
    else { None }
}

/// The token that starts at `start` (a position holding a byte), with the
/// position after it; or the error there, with the position the lexer has
/// reached.
pub open spec fn lex_at(b: Seq<u8>, start: nat) -> Result<(TokenView, nat), (ParseErrorView, nat)> {
    let c = b[start as int];
    let p = start + 1;
    if punct_kind(c) is Some {
        Ok((tok(TokenKindView::Kind(punct_kind(c)->0), start, p), p))
    } else if c == 34 {
        match string_from(b, p) {
            Ok((cs, q)) => Ok((tok(TokenKindView::Str(cs), start, q), q)),
            Err(q) => Err((perr(ParseErrorKindView::UnexpectedEof, start, q), q)),
        }
    } else if is_digit(c) {
        let e = run_end(b, p, true);
        let digits = b.subrange(start as int, e as int);
        if digits_value(digits) <= u128::MAX {
            Ok((tok(TokenKindView::Kind(TokenKind::Integer(digits_value(digits) as u128)), start, e), e))
        } else {
            Err((perr(ParseErrorKindView::InvalidNumber(byte_chars(digits)), start, e), e))
        }
    } else if is_alpha(c) || c == 95 {
        let e = run_end(b, p, false);
        let text = byte_chars(b.subrange(start as int, e as int));
        match keyword_kind(text) {
            Some(k) => Ok((tok(TokenKindView::Kind(k), start, e), e)),
            None => Ok((tok(TokenKindView::Ident(text), start, e), e)),
        }
    } else {
        Err((perr(ParseErrorKindView::Message("unexpected character `"@ + seq![c as char] + "`"@), start, p), p))
    }
}

pub proof fn lemma_lex_at(b: Seq<u8>, start: nat)
    requires
        start < b.len(),
    ensures
        lex_at(b, start) matches Ok((t, q)) ==> start < q <= b.len(),
        lex_at(b, start) matches Err((e, q)) ==> start < q <= b.len(),
{
    lemma_string_from(b, start + 1);
    lemma_run_end(b, start + 1, true);
    lemma_run_end(b, start + 1, false);
}

/// The tokens from `p` on (without the end marker), or the first error.
pub open spec fn lex_from(b: Seq<u8>, p: nat) -> Result<Seq<TokenView>, ParseErrorView>
    decreases b.len() - p,
{
    if p > b.len() {
        Ok(Seq::empty())
    } else {
        let q = skip_trivia(b, p);
        proof {
            lemma_skip_trivia(b, p);
        }
        if q >= b.len() {
            Ok(Seq::empty())
        } else {
            proof {
                lemma_lex_at(b, q);
            }
            match lex_at(b, q) {
                Ok((t, r)) => match lex_from(b, r) {
                    Ok(ts) => Ok(seq![t] + ts),
                    Err(e) => Err(e),
                },
                Err((e, _)) => Err(e),
            }
        }
    }
}

/// The tokens of a source, ending with `Eof` at its byte length, or the
/// first lexical error.
pub open spec fn lex_spec(b: Seq<u8>) -> Result<Seq<TokenView>, ParseErrorView> {
    match lex_from(b, 0) {
        Ok(ts) => Ok(ts.push(tok(TokenKindView::Kind(TokenKind::Eof), b.len(), b.len()))),
        Err(e) => Err(e),
    }
}

} // verus!
verus! {

pub proof fn lemma_digits_value_prefix(s: Seq<u8>, i: int)
    requires
        0 <= i <= s.len(),
    ensures
        digits_value(s.take(i)) <= digits_value(s),
    decreases s.len() - i,
{
    if i < s.len() {
        lemma_digits_value_prefix(s, i + 1);
        assert(s.take(i + 1).drop_last() =~= s.take(i));
    } else {
        assert(s.take(i) =~= s);
    }
}

/// The keyword spelled by `text`, if it is one.
pub fn keyword(text: &str) -> (r: Option<TokenKind>)
    ensures
        r == keyword_kind(text@),
{
    if str_eq(text, "vector") { Some(TokenKind::Vector) }
    else if str_eq(text, "wallet") { Some(TokenKind::Wallet) }
    else if str_eq(text, "bind") { Some(TokenKind::Bind) }
    else if str_eq(text, "certify") { Some(TokenKind::Certify) }
    else if str_eq(text, "transfer") { Some(TokenKind::Transfer) }
    else if str_eq(text, "drain") { Some(TokenKind::Drain) }
    else if str_eq(text, "project") { Some(TokenKind::Project) }
    else if str_eq(text, "reconstruct") { Some(TokenKind::Reconstruct) }
    else if str_eq(text, "query") { Some(TokenKind::Query) }
    else if str_eq(text, "record") { Some(TokenKind::Record) }
    else if str_eq(text, "contract") { Some(TokenKind::Contract) }
    else if str_eq(text, "action") { Some(TokenKind::Action) }
    else if str_eq(text, "with") { Some(TokenKind::With) }
    else if str_eq(text, "to") { Some(TokenKind::To) }
    else if str_eq(text, "amount") { Some(TokenKind::Amount) }
    else if str_eq(text, "by") { Some(TokenKind::By) }
    else if str_eq(text, "into") { Some(TokenKind::Into) }
    else if str_eq(text, "from") { Some(TokenKind::From) }
    else if str_eq(text, "policy") { Some(TokenKind::Policy) }
    else if str_eq(text, "ctx") { Some(TokenKind::Ctx) }
    else if str_eq(text, "space") { Some(TokenKind::Space) }
    else if str_eq(text, "op") { Some(TokenKind::Op) }
    else if str_eq(text, "risk") { Some(TokenKind::Risk) }
    else if str_eq(text, "threshold_version") { Some(TokenKind::ThresholdVersion) }
    else if str_eq(text, "outcome") { Some(TokenKind::Outcome) }
    else if str_eq(text, "gain") { Some(TokenKind::Gain) }
    else if str_eq(text, "loss") { Some(TokenKind::Loss) }
    else if str_eq(text, "partial") { Some(TokenKind::Partial) }
    else if str_eq(text, "release") { Some(TokenKind::Release) }
    else if str_eq(text, "staged") { Some(TokenKind::Staged) }
    else if str_eq(text, "as") { Some(TokenKind::As) }
    else { None }
}

fn punct(c: u8) -> (r: Option<TokenKind>)
    ensures
        r == punct_kind(c),
{
    if c == 40 { Some(TokenKind::LParen) }
    else if c == 41 { Some(TokenKind::RParen) }
    else if c == 123 { Some(TokenKind::LBrace) }
    else if c == 125 { Some(TokenKind::RBrace) }
    else if c == 58 { Some(TokenKind::Colon) }
    else if c == 59 { Some(TokenKind::Semi) }
    else if c == 44 { Some(TokenKind::Comma) }
    else if c == 46 { Some(TokenKind::Dot) }
    else if c == 61 { Some(TokenKind::Eq) }
    else { None }
}

/// The lexer over a source; it hands out one token at a time.
#[derive(Debug, Clone)]
pub struct Lexer<'a> {
    src: &'a str,
    bytes: &'a [u8],
    pos: usize,
}

impl<'a> Lexer<'a> {
    /// The source bytes.
    pub closed spec fn input(&self) -> Seq<u8> {
        self.bytes@
    }

    /// The byte position reached.
    pub closed spec fn position(&self) -> nat {
        self.pos as nat
    }

    pub closed spec fn wf(&self) -> bool {
        &&& self.bytes@ == vstd::utf8::encode_utf8(self.src@)
        &&& self.pos <= self.bytes@.len()
        &&& self.bytes@.len() <= usize::MAX
    }

    pub fn new(src: &'a str) -> (r: Self)
        ensures
            r.wf(),
            r.input() == vstd::utf8::encode_utf8(src@),
            r.position() == 0,
    {
        let bytes = src.as_bytes();
        let _n = bytes.len();
        Lexer { src, bytes, pos: 0 }
    }

    fn peek(&self) -> (r: Option<u8>)
        requires
            self.wf(),
        ensures
            r == if self.pos < self.bytes@.len() { Some(self.bytes@[self.pos as int]) } else { None },
    {
        if self.pos < self.bytes.len() {
            Some(self.bytes[self.pos])
        } else {
            None
        }
    }

    fn peek_next(&self) -> (r: Option<u8>)
        requires
            self.wf(),
        ensures
            r == if self.pos + 1 < self.bytes@.len() { Some(self.bytes@[self.pos + 1]) } else { None },
    {
        if self.pos < self.bytes.len() && self.bytes.len() - self.pos > 1 {
            Some(self.bytes[self.pos + 1])
        } else {
            None
        }
    }

    fn bump(&mut self) -> (r: Option<u8>)
        requires
            old(self).wf(),
        ensures
            final(self).wf(),
            final(self).src == old(self).src,
            final(self).bytes == old(self).bytes,
            old(self).pos < old(self).bytes@.len() ==> r == Some(old(self).bytes@[old(self).pos as int])
                && final(self).pos == old(self).pos + 1,
            old(self).pos >= old(self).bytes@.len() ==> r is None && final(self).pos == old(self).pos,
    {
        let ch = self.peek();
        match ch {
            Some(c) => {
                self.pos = self.pos + 1;
                Some(c)
            },
            None => None,
        }
    }

    fn skip_ws_and_comments(&mut self)
        requires
            old(self).wf(),
        ensures
            final(self).wf(),
            final(self).src == old(self).src,
            final(self).bytes == old(self).bytes,
            final(self).pos == skip_trivia(old(self).bytes@, old(self).pos as nat),
    {
        let ghost b = self.bytes@;
        let ghost s0 = self.src;
        let ghost b0 = self.bytes;
        let ghost target = skip_trivia(b, self.pos as nat);
        loop
            invariant
                self.wf(),
                self.bytes@ == b,
                self.src == old(self).src,
                self.bytes == old(self).bytes,
                skip_trivia(b, self.pos as nat) == target,
            ensures
                self.wf(),
                self.src == old(self).src,
                self.bytes == old(self).bytes,
                self.pos == target,
            decreases b.len() - self.pos,
        {
            let ghost p0 = self.pos as nat;
            while self.peek() == Some(32u8) || self.peek() == Some(10u8) || self.peek() == Some(13u8)
                || self.peek() == Some(9u8)
                invariant
                    self.wf(),
                    self.bytes@ == b,
                    self.src == old(self).src,
                    self.bytes == old(self).bytes,
                    p0 <= self.pos,
                    skip_spaces(b, p0) == skip_spaces(b, self.pos as nat),
                decreases b.len() - self.pos,
            {
                self.pos = self.pos + 1;
            }
            let ghost q = self.pos as nat;
            assert(skip_spaces(b, q) == q);
            let mut skipped = false;
            if self.peek() == Some(47u8) && self.peek_next() == Some(47u8) {
                skipped = true;
                self.pos = self.pos + 2;
            } else if self.peek() == Some(35u8) {
                skipped = true;
                self.pos = self.pos + 1;
            }
            if skipped {
                assert(self.pos == comment_body(b, q));
                proof {
                    lemma_skip_spaces(b, p0);
                    lemma_line_end(b, comment_body(b, q));
                }
                let mut done = false;
                while !done && self.pos < self.bytes.len()
                    invariant
                        self.wf(),
                        self.bytes@ == b,
                        self.src == old(self).src,
                        self.bytes == old(self).bytes,
                        comment_body(b, q) <= self.pos,
                        done ==> self.pos == line_end(b, comment_body(b, q)),
                        !done ==> line_end(b, comment_body(b, q)) == line_end(b, self.pos as nat),
                    decreases b.len() - self.pos,
                {
                    let ch = self.bytes[self.pos];
                    self.pos = self.pos + 1;
                    if ch == 10 {
                        done = true;
                    }
                }
            } else {
                assert(!comment_at(b, q));
                assert(skip_trivia(b, p0) == q);
                break;
            }
        }
    }

    /// Reads a number whose first digit is at `start`.
    fn lex_number(&mut self, start: usize) -> (r: Result<Token, ParseError>)
        requires
            old(self).wf(),
            old(self).pos == start + 1,
            start < old(self).bytes@.len(),
            is_digit(old(self).bytes@[start as int]),
        ensures
            final(self).wf(),
            final(self).src == old(self).src,
            final(self).bytes == old(self).bytes,
            match lex_at(old(self).bytes@, start as nat) {
                Ok((t, q)) => r matches Ok(tk) && tk@ == t && final(self).pos == q,
                Err((e, q)) => r matches Err(er) && er@ == e && final(self).pos == q,
            },
    {
        let ghost b = self.bytes@;
        let ghost s0 = self.src;
        let ghost b0 = self.bytes;
        let mut end = self.pos;
        while self.pos < self.bytes.len() && 48 <= self.bytes[self.pos] && self.bytes[self.pos] <= 57
            invariant
                self.wf(),
                self.bytes@ == b,
                self.src == old(self).src,
                self.bytes == old(self).bytes,
                start < self.pos,
                end == self.pos,
                run_end(b, (start + 1) as nat, true) == run_end(b, self.pos as nat, true),
            decreases b.len() - self.pos,
        {
            self.pos = self.pos + 1;
            end = self.pos;
        }
        let ghost digits = b.subrange(start as int, end as int);
        proof {
            lemma_run_end(b, (start + 1) as nat, true);
        }
        let mut text = String::new();
        let mut value: u128 = 0;
        let mut fits = true;
        let mut i = start;
        while i < end
            invariant
                self.wf(),
                self.bytes@ == b,
                self.src == old(self).src,
                self.bytes == old(self).bytes,
                start <= i <= end,
                end <= b.len(),
                digits == b.subrange(start as int, end as int),
                forall|k: int| start <= k < end ==> is_digit(#[trigger] b[k]),
                text@ == byte_chars(b.subrange(start as int, i as int)),
                fits ==> value == digits_value(b.subrange(start as int, i as int)),
                !fits ==> digits_value(b.subrange(start as int, i as int)) > u128::MAX,
            decreases end - i,
        {
            let d = self.bytes[i];
            push_char(&mut text, d as char);
            proof {
                let s = b.subrange(start as int, i + 1);
                assert(s.drop_last() =~= b.subrange(start as int, i as int));
                assert(byte_chars(s) =~= byte_chars(b.subrange(start as int, i as int)).push(d as char));
            }
            if fits {
                match value.checked_mul(10) {
                    Some(v10) => match v10.checked_add((d - 48) as u128) {
                        Some(v) => value = v,
                        None => fits = false,
                    },
                    None => fits = false,
                }
            }
            i = i + 1;
        }
        if fits {
            Ok(Token::new(TokenKind::Integer(value), start, end))
        } else {
            Err(ParseError::new(Span::new(start, end), ParseErrorKind::InvalidNumber(text)))
        }
    }

    /// Reads an identifier or keyword whose first byte is at `start`.
    fn lex_ident_or_keyword(&mut self, start: usize) -> (r: Token)
        requires
            old(self).wf(),
            old(self).pos == start + 1,
            start < old(self).bytes@.len(),
            is_alpha(old(self).bytes@[start as int]) || old(self).bytes@[start as int] == 95,
        ensures
            final(self).wf(),
            final(self).src == old(self).src,
            final(self).bytes == old(self).bytes,
            lex_at(old(self).bytes@, start as nat) matches Ok((t, q)) && r@ == t && final(self).pos == q,
    {
        let ghost b = self.bytes@;
        let ghost s0 = self.src;
        let ghost b0 = self.bytes;
        let mut end = self.pos;
        while self.pos < self.bytes.len() && (48 <= self.bytes[self.pos] && self.bytes[self.pos] <= 57
            || 65 <= self.bytes[self.pos] && self.bytes[self.pos] <= 90
            || 97 <= self.bytes[self.pos] && self.bytes[self.pos] <= 122 || self.bytes[self.pos] == 95)
            invariant
                self.wf(),
                self.bytes@ == b,
                self.src == old(self).src,
                self.bytes == old(self).bytes,
                start < self.pos,
                end == self.pos,
                run_end(b, (start + 1) as nat, false) == run_end(b, self.pos as nat, false),
            decreases b.len() - self.pos,
        {
            self.pos = self.pos + 1;
            end = self.pos;
        }
        proof {
            lemma_run_end(b, (start + 1) as nat, false);
        }
        let mut text = String::new();
        let mut i = start;
        while i < end
            invariant
                self.bytes@ == b,
                self.src == old(self).src,
                self.bytes == old(self).bytes,
                start <= i <= end,
                end <= b.len(),
                text@ == byte_chars(b.subrange(start as int, i as int)),
            decreases end - i,
        {
            let d = self.bytes[i];
            push_char(&mut text, d as char);
            proof {
                let s = b.subrange(start as int, i + 1);
                assert(byte_chars(s) =~= byte_chars(b.subrange(start as int, i as int)).push(d as char));
            }
            i = i + 1;
        }
        match keyword(text.as_str()) {
            Some(k) => Token::new(k, start, end),
            None => Token::new(TokenKind::Ident(text), start, end),
        }
    }

    /// Reads a string whose opening quote is at `start`.
    fn lex_string(&mut self, start: usize) -> (r: Result<Token, ParseError>)
        requires
            old(self).wf(),
            old(self).pos == start + 1,
            start < old(self).bytes@.len(),
            old(self).bytes@[start as int] == 34,
        ensures
            final(self).wf(),
            final(self).src == old(self).src,
            final(self).bytes == old(self).bytes,
            match lex_at(old(self).bytes@, start as nat) {
                Ok((t, q)) => r matches Ok(tk) && tk@ == t && final(self).pos == q,
                Err((e, q)) => r matches Err(er) && er@ == e && final(self).pos == q,
            },
    {
        let ghost b = self.bytes@;
        let ghost whole = string_from(b, (start + 1) as nat);
        assert(punct_kind(34) is None);
        assert(lex_at(b, start as nat) == match whole {
            Ok((cs, q)) => Ok((tok(TokenKindView::Str(cs), start as nat, q), q)),
            Err(q) => Err((perr(ParseErrorKindView::UnexpectedEof, start as nat, q), q)),
        });
        let ghost s0 = self.src;
        let ghost b0 = self.bytes;
        let mut out = String::new();
        loop
            invariant_except_break
                whole == match string_from(b, self.pos as nat) {
                    Ok((cs, q)) => Ok((out@ + cs, q)),
                    Err(q) => Err::<(Seq<char>, nat), nat>(q),
                },
            invariant
                self.wf(),
                self.bytes@ == b,
                self.src == old(self).src,
                self.bytes == old(self).bytes,
                start < self.pos,
                whole == string_from(b, (start + 1) as nat),
                lex_at(b, start as nat) == match whole {
                    Ok((cs, q)) => Ok((tok(TokenKindView::Str(cs), start as nat, q), q)),
                    Err(q) => Err((perr(ParseErrorKindView::UnexpectedEof, start as nat, q), q)),
                },
            ensures
                whole == Ok::<(Seq<char>, nat), nat>((out@, self.pos as nat)),
            decreases b.len() - self.pos,
        {
            let ghost p = self.pos as nat;
            let ch = self.bump();
            match ch {
                None => {
                    assert(string_from(b, p) == Err::<(Seq<char>, nat), nat>(p));
                    let r = ParseError::new(Span::new(start, self.pos), ParseErrorKind::UnexpectedEof);
                    return Err(r);
                },
                Some(c) => {
                    if c == 34 {
                        assert(string_from(b, p) == Ok::<(Seq<char>, nat), nat>((Seq::empty(), p + 1)));
                        assert(out@ + Seq::<char>::empty() =~= out@);
                        break;
                    } else if c == 92 {
                        let esc = self.bump();
                        match esc {
                            None => {
                                assert(string_from(b, p) == Err::<(Seq<char>, nat), nat>(p + 1));
                                return Err(ParseError::new(Span::new(start, self.pos), ParseErrorKind::UnexpectedEof));
                            },
                            Some(e) => {
                                let x = if e == 34 { '"' } else if e == 92 { '\\' } else if e == 110 { '\n' }
                                    else if e == 114 { '\r' } else if e == 116 { '\t' } else { e as char };
                                assert(x == escape_char(e));
                                let ghost before = out@;
                                push_char(&mut out, x);
                                assert(string_from(b, p) == match string_from(b, p + 2) {
                                    Ok((cs, q)) => Ok((seq![escape_char(b[p + 1int])] + cs, q)),
                                    Err(q) => Err(q),
                                });
                                proof {
                                    match string_from(b, self.pos as nat) {
                                        Ok((cs, q)) => {
                                            assert(before + (seq![x] + cs) =~= out@ + cs);
                                        },
                                        Err(q) => {},
                                    }
                                }
                            },
                        }
                    } else {
                        let ghost before = out@;
                        push_char(&mut out, c as char);
                        assert(string_from(b, p) == match string_from(b, p + 1) {
                            Ok((cs, q)) => Ok((seq![b[p as int] as char] + cs, q)),
                            Err(q) => Err(q),
                        });
                        proof {
                            match string_from(b, self.pos as nat) {
                                Ok((cs, q)) => {
                                    assert(before + (seq![c as char] + cs) =~= out@ + cs);
                                },
                                Err(q) => {},
                            }
                        }
                    }
                },
            }
        }
        assert(out@ + Seq::<char>::empty() =~= out@);
        Ok(Token::new(TokenKind::String(out), start, self.pos))
    }

    /// The next token, an error, or `None` at the end of the input.
    pub fn next(&mut self) -> (r: Option<Result<Token, ParseError>>)
        requires
            old(self).wf(),
        ensures
            final(self).wf(),
            final(self).input() == old(self).input(),
            ({
                let b = old(self).input();
                let q = skip_trivia(b, old(self).position());
                if q >= b.len() {
                    r is None && final(self).position() == q
                } else {
                    match lex_at(b, q) {
                        Ok((t, p)) => r matches Some(Ok(tk)) && tk@ == t && final(self).position() == p,
                        Err((e, p)) => r matches Some(Err(er)) && er@ == e && final(self).position() == p,
                    }
                }
            }),
    {
        self.skip_ws_and_comments();
        let start = self.pos;
        let ch = self.bump();
        match ch {
            None => None,
            Some(c) => {
                match punct(c) {
                    Some(k) => {
                        return Some(Ok(Token::new(k, start, self.pos)));
                    },
                    None => {},
                }
                if c == 34 {
                    Some(self.lex_string(start))
                } else if 48 <= c && c <= 57 {
                    Some(self.lex_number(start))
                } else if (65 <= c && c <= 90) || (97 <= c && c <= 122) || c == 95 {
                    Some(Ok(self.lex_ident_or_keyword(start)))
                } else {
                    let mut msg = String::new();
                    push_str(&mut msg, "unexpected character `");
                    push_char(&mut msg, c as char);
                    push_str(&mut msg, "`");
                    assert(msg@ =~= "unexpected character `"@ + seq![c as char] + "`"@);
                    let e = ParseError::new(Span::new(start, self.pos), ParseErrorKind::Message(msg));
                    Some(Err(e))
                }
            },
        }
    }
}

/// The tokens of `src`, ending with `Eof` at its byte length, or the first
/// lexical error.
pub fn lex(src: &str) -> (r: Result<Vec<Token>, ParseError>)
    ensures
        match r {
            Ok(ts) => lex_spec(vstd::utf8::encode_utf8(src@)) == Ok::<Seq<TokenView>, ParseErrorView>(token_views(ts@)),
            Err(e) => lex_spec(vstd::utf8::encode_utf8(src@)) == Err::<Seq<TokenView>, ParseErrorView>(e@),
        },
{
    let ghost b = vstd::utf8::encode_utf8(src@);
    let mut tokens: Vec<Token> = Vec::new();
    let mut lexer = Lexer::new(src);
    loop
        invariant
            b == vstd::utf8::encode_utf8(src@),
            lexer.wf(),
            lexer.input() == b,
            lexer.position() <= b.len(),
            lex_from(b, 0) == match lex_from(b, lexer.position()) {
                Ok(ts) => Ok(token_views(tokens@) + ts),
                Err(e) => Err::<Seq<TokenView>, ParseErrorView>(e),
            },
        ensures
            lex_from(b, 0) == Ok::<Seq<TokenView>, ParseErrorView>(token_views(tokens@)),
        decreases b.len() - lexer.position(),
    {
        let ghost p = lexer.position();
        let ghost q = skip_trivia(b, p);
        proof {
            lemma_skip_trivia(b, p);
            if q < b.len() {
                lemma_lex_at(b, q);
            }
        }
        assert(lex_from(b, p) == if q >= b.len() {
            Ok(Seq::<TokenView>::empty())
        } else {
            match lex_at(b, q) {
                Ok((t, r)) => match lex_from(b, r) {
                    Ok(ts) => Ok(seq![t] + ts),
                    Err(e) => Err(e),
                },
                Err((e, _)) => Err(e),
            }
        });
        match lexer.next() {
            None => {
                assert(token_views(tokens@) + Seq::<TokenView>::empty() =~= token_views(tokens@));
                break;
            },
            Some(Ok(t)) => {
                let ghost tv = t@;
                let ghost before = tokens@;
                tokens.push(t);
                proof {
                    assert(token_views(tokens@) =~= token_views(before).push(tv));
                    match lex_from(b, lexer.position()) {
                        Ok(ts) => {
                            assert(token_views(before) + (seq![tv] + ts) =~= token_views(tokens@) + ts);
                        },
                        Err(e) => {},
                    }
                }
            },
            Some(Err(e)) => {
                return Err(e);
            },
        }
    }
    let len = src.len();
    let ghost before = tokens@;
    tokens.push(Token::new(TokenKind::Eof, len, len));
    assert(token_views(tokens@) =~= (token_views(before) + Seq::<TokenView>::empty()).push(
        tok(TokenKindView::Kind(TokenKind::Eof), b.len(), b.len())));
    Ok(tokens)
}

} // verus!
verus! {

/// The tokens lie in order within `lo..hi`: each over a non-empty stretch,
/// each ending where the next may begin, none of them the end marker.
pub open spec fn spans_in_order(ts: Seq<TokenView>, lo: nat, hi: nat) -> bool {
    &&& forall|i: int| 0 <= i < ts.len() ==> lo <= #[trigger] ts[i].start < ts[i].end <= hi
    &&& forall|i: int, j: int| 0 <= i < j < ts.len() ==> #[trigger] ts[i].end <= #[trigger] ts[j].start
    &&& forall|i: int| 0 <= i < ts.len() ==> #[trigger] ts[i].kind != TokenKindView::Kind(TokenKind::Eof)
}

proof fn lemma_lex_from_spans(b: Seq<u8>, p: nat)
    requires
        p <= b.len() <= usize::MAX,
    ensures
        lex_from(b, p) matches Ok(ts) ==> spans_in_order(ts, p, b.len()),
    decreases b.len() - p,
{
    let q = skip_trivia(b, p);
    lemma_skip_trivia(b, p);
    if q < b.len() {
        lemma_lex_at(b, q);
        if let Ok((t, r)) = lex_at(b, q) {
            lemma_lex_from_spans(b, r);
            if let Ok(rest) = lex_from(b, r) {
                let ts = seq![t] + rest;
                assert(t.start == q && t.end == r);
                assert(t.kind != TokenKindView::Kind(TokenKind::Eof));
                assert forall|i: int| 0 <= i < ts.len() implies p <= #[trigger] ts[i].start < ts[i].end <= b.len() by {
                    if i > 0 {
                        assert(ts[i] == rest[i - 1]);
                    }
                }
                assert forall|i: int, j: int| 0 <= i < j < ts.len() implies #[trigger] ts[i].end
                    <= #[trigger] ts[j].start by {
                    assert(ts[j] == rest[j - 1]);
                    if i > 0 {
                        assert(ts[i] == rest[i - 1]);
                    }
                }
                assert forall|i: int| 0 <= i < ts.len() implies #[trigger] ts[i].kind != TokenKindView::Kind(
                    TokenKind::Eof) by {
                    if i > 0 {
                        assert(ts[i] == rest[i - 1]);
                    }
                }
            }
        }
    }
}

/// A successful lex gives the tokens in source order, each over a
/// non-empty stretch of the source, and ends with the one end marker,
/// placed at the end of the source.
pub proof fn law_lex_spans(b: Seq<u8>)
    requires
        b.len() <= usize::MAX,
    ensures
        lex_spec(b) matches Ok(ts) ==> {
            &&& ts.len() >= 1
            &&& ts.last() == tok(TokenKindView::Kind(TokenKind::Eof), b.len(), b.len())
            &&& spans_in_order(ts.drop_last(), 0, b.len())
        },
{
    lemma_lex_from_spans(b, 0);
    if let Ok(ts) = lex_from(b, 0) {
        assert(lex_spec(b)->Ok_0.drop_last() =~= ts);
    }
}

} // verus!
verus! {

/// Space, tab, carriage return and line feed between tokens produce no
/// token and no error: lexing from such a byte gives exactly what lexing
/// from the byte after it gives.
pub proof fn law_whitespace_skipped(b: Seq<u8>, p: nat)
    requires
        p < b.len(),
        b[p as int] == 32 || b[p as int] == 9 || b[p as int] == 10 || b[p as int] == 13,
    ensures
        skip_trivia(b, p) == skip_trivia(b, p + 1),
        lex_from(b, p) == lex_from(b, p + 1),
{
    assert(skip_spaces(b, p) == skip_spaces(b, p + 1));
}

/// A `#` or `//` comment produces no token: lexing from its marker gives
/// what lexing from the start of the next line gives.
pub proof fn law_comment_skipped(b: Seq<u8>, p: nat)
    requires
        p < b.len(),
        b[p as int] == 35 || (p + 1 < b.len() && b[p as int] == 47 && b[p + 1int] == 47),
    ensures
        lex_from(b, p) == lex_from(b, line_end(b, if b[p as int] == 35 { p + 1 } else { p + 2 })),
{
    assert(skip_spaces(b, p) == p);
    lemma_line_end(b, comment_body(b, p));
    let e = line_end(b, comment_body(b, p));
    if e <= b.len() {
        lemma_skip_trivia(b, e);
    }
}

} // verus!
