//! Tokenizer: classifies the source text into tokens, one at a time, as a function
//! of the cursor position alone.
//!
//! The schema language is ASCII text, so an offset into the source counts bytes
//! and characters alike.

use vstd::prelude::*;
use vstd::string::*;
use core::ops::Range;
use core::ops::RangeInclusive;
use vstd::std_specs::convert::FromSpecImpl;
use vstd::std_specs::convert::IntoSpec;
use crate::text::same_text;

verus! {

/// The classes of tokens.
#[derive(Clone, Copy, Debug, PartialEq, Eq, Structural)]
pub enum TokenKind {
    BraceOpen,
    BraceClose,
    BracketOpen,
    BracketClose,
    ParenOpen,
    ParenClose,
    Colon,
    QuestionMark,
    Comma,
    Newline,
    TypeIdent,
    Ident,
    TypeKeyword,
    Invalid,
    EOF,
}

/// The bytes of the source that a token covers: from `start` through `end`,
/// both included. A span that covers nothing, as that of the end of input, has
/// no `end`.
#[derive(Clone, Copy, Debug, PartialEq, Eq)]
pub struct Span {
    pub start: usize,
    pub end: Option<usize>,
}

impl Span {
    /// The span of the offsets from `start` up to, but without, `end`.
    pub open spec fn between(start: int, end: int) -> Span {
        Span {
            start: start as usize,
            end: if start < end {
                Some((end - 1) as usize)
            } else {
                None
            },
        }
    }
}

impl From<Range<usize>> for Span {
    fn from(value: Range<usize>) -> (span: Span) {
        if value.start < value.end {
            Span { start: value.start, end: Some(value.end - 1) }
        } else {
            Span { start: value.start, end: None }
        }
    }
}

impl FromSpecImpl<Range<usize>> for Span {
    open spec fn obeys_from_spec() -> bool {
        true
    }

    open spec fn from_spec(value: Range<usize>) -> Span {
        Span::between(value.start as int, value.end as int)
    }
}

/// `RangeInclusive::start` hands out the lower bound that the range was made
/// with.
pub assume_specification<Idx>[ RangeInclusive::<Idx>::start ](
    range: &RangeInclusive<Idx>,
) -> (bound: &Idx)
    ensures
        *bound == range@.start,
;

/// `RangeInclusive::end` hands out the upper bound that the range was made
/// with.
pub assume_specification<Idx>[ RangeInclusive::<Idx>::end ](range: &RangeInclusive<Idx>) -> (bound:
    &Idx)
    ensures
        *bound == range@.end,
;

impl From<RangeInclusive<usize>> for Span {
    fn from(value: RangeInclusive<usize>) -> (span: Span) {
        let start: usize = *value.start();
        let end: usize = *value.end();
        if start <= end {
            Span { start, end: Some(end) }
        } else {
            Span { start, end: None }
        }
    }
}

impl FromSpecImpl<RangeInclusive<usize>> for Span {
    open spec fn obeys_from_spec() -> bool {
        true
    }

    open spec fn from_spec(value: RangeInclusive<usize>) -> Span {
        Span {
            start: value@.start,
            end: if value@.start <= value@.end {
                Some(value@.end)
            } else {
                None
            },
        }
    }
}

impl From<usize> for Span {
    fn from(value: usize) -> (span: Span) {
        Span { start: value, end: Some(value) }
    }
}

impl FromSpecImpl<usize> for Span {
    open spec fn obeys_from_spec() -> bool {
        true
    }

    open spec fn from_spec(value: usize) -> Span {
        Span { start: value, end: Some(value) }
    }
}

/// A token: its class, the place it was read from, and the text it was read as.
#[derive(Clone, Debug, PartialEq, Eq)]
pub struct Token {
    pub span: Span,
    pub kind: TokenKind,
    pub str: String,
}

/// The text of the one contextual keyword.
pub open spec fn keyword_text() -> Seq<char> {
    "type"@
}

impl Token {
    /// What `into_keyword` makes of a token of class `kind` that reads `text`.
    pub open spec fn lifted(kind: TokenKind, text: Seq<char>) -> TokenKind {
        if kind == TokenKind::Ident && text == keyword_text() {
            TokenKind::TypeKeyword
        } else {
            kind
        }
    }

    /// Lifts an identifier that reads exactly `type` to the keyword; any other
    /// token comes back as it is.
    pub fn into_keyword(self) -> (token: Token)
        ensures
            token.kind == Token::lifted(self.kind, self.str@),
            token.span == self.span,
            token.str == self.str,
    {
        match self.kind {
            TokenKind::Ident => {
                if same_text(self.str.as_str(), "type") {
                    Token { span: self.span, kind: TokenKind::TypeKeyword, str: self.str }
                } else {
                    self
                }
            },
            _ => self,
        }
    }

    /// Whether this token is the lexeme `lexeme` of the source `source`.
    pub open spec fn reads(&self, source: Seq<char>, lexeme: Lexeme) -> bool {
        &&& self.kind == lexeme.kind
        &&& self.span == Span::between(lexeme.start, lexeme.end)
        &&& self.str@ == source.subrange(lexeme.start, lexeme.end)
    }
}

impl TokenKind {
    /// Makes the token of this class at `span` that reads `str`.
    pub fn at<S: Into<Span>>(self, span: S, str: &str) -> (token: Token)
        ensures
            token.kind == self,
            token.str@ == str@,
            S::obeys_into_spec() ==> token.span == span.into_spec(),
    {
        Token { span: span.into(), kind: self, str: str.to_owned() }
    }

    /// True of the two classes that separate fields.
    pub open spec fn delimits(self) -> bool {
        self == TokenKind::Comma || self == TokenKind::Newline
    }

    #[verifier::when_used_as_spec(delimits)]
    pub fn is_delim(self) -> (delim: bool)
        ensures
            delim == self.delimits(),
    {
        self == TokenKind::Comma || self == TokenKind::Newline
    }
}

/// White space that separates tokens without being one: the white space of
/// ASCII but for the newline.
pub open spec fn is_blank(c: char) -> bool {
    c == ' ' || c == '\t' || c == '\r' || c == '\x0b' || c == '\x0c'
}

pub open spec fn is_upper(c: char) -> bool {
    'A' <= c <= 'Z'
}

pub open spec fn is_letter(c: char) -> bool {
    is_upper(c) || 'a' <= c <= 'z'
}

/// The characters that go on an identifier once a letter has started it.
pub open spec fn continues_ident(c: char) -> bool {
    is_letter(c) || '0' <= c <= '9' || c == '_'
}

/// The class of the token that is the single character `c`, for the characters
/// that are one.
pub open spec fn punctuation(c: char) -> Option<TokenKind> {
    if c == '[' {
        Some(TokenKind::BracketOpen)
    } else if c == ']' {
        Some(TokenKind::BracketClose)
    } else if c == '{' {
        Some(TokenKind::BraceOpen)
    } else if c == '}' {
        Some(TokenKind::BraceClose)
    } else if c == '(' {
        Some(TokenKind::ParenOpen)
    } else if c == ')' {
        Some(TokenKind::ParenClose)
    } else if c == '?' {
        Some(TokenKind::QuestionMark)
    } else if c == ',' {
        Some(TokenKind::Comma)
    } else if c == ':' {
        Some(TokenKind::Colon)
    } else if c == '\n' {
        Some(TokenKind::Newline)
    } else {
        None
    }
}

/// How many blanks stand in a row from `pos` on.
pub open spec fn blank_run(source: Seq<char>, pos: int) -> nat
    decreases source.len() - pos,
{
    if 0 <= pos < source.len() && is_blank(source[pos]) {
        1 + blank_run(source, pos + 1)
    } else {
        0
    }
}

/// How many characters that go on an identifier stand in a row from `pos` on.
pub open spec fn ident_run(source: Seq<char>, pos: int) -> nat
    decreases source.len() - pos,
{
    if 0 <= pos < source.len() && continues_ident(source[pos]) {
        1 + ident_run(source, pos + 1)
    } else {
        0
    }
}

/// A token as a place in the source: its class, the offset of its first
/// character and the offset after its last.
pub struct Lexeme {
    pub kind: TokenKind,
    pub start: int,
    pub end: int,
}

/// The token that a cursor at `pos` reads next. Blanks before it are passed
/// over. At or beyond the end of the source it is `EOF`, which covers nothing.
pub open spec fn lexeme_at(source: Seq<char>, pos: int) -> Lexeme {
    let start = pos + blank_run(source, pos);
    if start >= source.len() {
        Lexeme { kind: TokenKind::EOF, start, end: start }
    } else {
        let c = source[start];
        match punctuation(c) {
            Some(kind) => Lexeme { kind, start, end: start + 1 },
            None => if is_letter(c) {
                Lexeme {
                    kind: if is_upper(c) {
                        TokenKind::TypeIdent
                    } else {
                        TokenKind::Ident
                    },
                    start,
                    end: start + 1 + ident_run(source, start + 1),
                }
            } else {
                Lexeme { kind: TokenKind::Invalid, start, end: start + 1 }
            },
        }
    }
}

/// The first token from `pos` on that is no newline.
pub open spec fn significant_at(source: Seq<char>, pos: int) -> Lexeme
    decreases source.len() - pos,
{
    let lexeme = lexeme_at(source, pos);
    if lexeme.kind == TokenKind::Newline {
        significant_at(source, lexeme.end)
    } else {
        lexeme
    }
}

/// The end of the source is read again and again: behind an `EOF` stands the
/// same `EOF`.
pub proof fn lemma_eof_stays(source: Seq<char>, pos: int)
    requires
        0 <= pos <= source.len(),
        lexeme_at(source, pos).kind == TokenKind::EOF,
    ensures
        lexeme_at(source, lexeme_at(source, pos).end) == lexeme_at(source, pos),
        lexeme_at(source, pos).end == source.len(),
{
    lemma_lexeme_bounds(source, pos);
}

/// The offset behind the newlines that stand in a row from `pos` on.
pub open spec fn newlines_end(source: Seq<char>, pos: int) -> int
    decreases source.len() - pos,
{
    let lexeme = lexeme_at(source, pos);
    if lexeme.kind == TokenKind::Newline {
        newlines_end(source, lexeme.end)
    } else {
        pos
    }
}

/// The first token that is no newline is the token that stands next once the
/// newlines have been passed over.
pub proof fn lemma_newlines_end(source: Seq<char>, pos: int)
    ensures
        pos <= newlines_end(source, pos),
        significant_at(source, pos) == lexeme_at(source, newlines_end(source, pos)),
        significant_at(source, newlines_end(source, pos)) == significant_at(source, pos),
        newlines_end(source, newlines_end(source, pos)) == newlines_end(source, pos),
    decreases source.len() - pos,
{
    let lexeme = lexeme_at(source, pos);
    if lexeme.kind == TokenKind::Newline {
        lemma_newlines_end(source, lexeme.end);
    }
}

/// The tokens from `pos` to the end of the source, without the final `EOF`.
pub open spec fn lexemes_from(source: Seq<char>, pos: int) -> Seq<Lexeme>
    decreases
        (if pos < source.len() {
            source.len() - pos
        } else {
            0
        }),
{
    let lexeme = lexeme_at(source, pos);
    if lexeme.kind == TokenKind::EOF {
        Seq::empty()
    } else {
        seq![lexeme] + lexemes_from(source, lexeme.end)
    }
}

/// A run of blanks ends inside the source or at its end.
pub proof fn lemma_blank_run_bound(source: Seq<char>, pos: int)
    requires
        0 <= pos <= source.len(),
    ensures
        pos + blank_run(source, pos) <= source.len(),
    decreases source.len() - pos,
{
    if pos < source.len() && is_blank(source[pos]) {
        lemma_blank_run_bound(source, pos + 1);
    }
}

/// A run of identifier characters ends inside the source or at its end.
pub proof fn lemma_ident_run_bound(source: Seq<char>, pos: int)
    requires
        0 <= pos <= source.len(),
    ensures
        pos + ident_run(source, pos) <= source.len(),
    decreases source.len() - pos,
{
    if pos < source.len() && continues_ident(source[pos]) {
        lemma_ident_run_bound(source, pos + 1);
    }
}

/// A token lies inside the source, at or after the cursor, and every token but
/// `EOF` covers at least one character.
pub proof fn lemma_lexeme_bounds(source: Seq<char>, pos: int)
    requires
        0 <= pos <= source.len(),
    ensures
        pos <= lexeme_at(source, pos).start <= lexeme_at(source, pos).end <= source.len(),
        lexeme_at(source, pos).kind != TokenKind::EOF ==> lexeme_at(source, pos).start
            < lexeme_at(source, pos).end,
        lexeme_at(source, pos).kind == TokenKind::EOF ==> lexeme_at(source, pos).start
            == source.len(),
        lexeme_at(source, pos).kind != TokenKind::TypeKeyword,
{
    lemma_blank_run_bound(source, pos);
    let start = pos + blank_run(source, pos);
    if start < source.len() {
        lemma_ident_run_bound(source, start + 1);
    }
}

/// Whether the byte is a blank of ASCII.
fn is_blank_byte(b: u8) -> (blank: bool)
    ensures
        blank == is_blank(b as char),
{
    b == 32 || b == 9 || b == 13 || b == 11 || b == 12
}

/// Whether the byte is a character of ASCII that goes on an identifier.
fn continues_ident_byte(b: u8) -> (goes_on: bool)
    ensures
        goes_on == continues_ident(b as char),
{
    (65 <= b && b <= 90) || (97 <= b && b <= 122) || (48 <= b && b <= 57) || b == 95
}

/// The class of the token that starts with the byte `b`, which stands in the
/// source.
fn leading_kind(b: u8) -> (kind: TokenKind)
    ensures
        kind == match punctuation(b as char) {
            Some(kind) => kind,
            None => if is_upper(b as char) {
                TokenKind::TypeIdent
            } else if is_letter(b as char) {
                TokenKind::Ident
            } else {
                TokenKind::Invalid
            },
        },
{
    if b == 91 {
        TokenKind::BracketOpen
    } else if b == 93 {
        TokenKind::BracketClose
    } else if b == 123 {
        TokenKind::BraceOpen
    } else if b == 125 {
        TokenKind::BraceClose
    } else if b == 40 {
        TokenKind::ParenOpen
    } else if b == 41 {
        TokenKind::ParenClose
    } else if b == 63 {
        TokenKind::QuestionMark
    } else if b == 44 {
        TokenKind::Comma
    } else if b == 58 {
        TokenKind::Colon
    } else if b == 10 {
        TokenKind::Newline
    } else if 65 <= b && b <= 90 {
        TokenKind::TypeIdent
    } else if 97 <= b && b <= 122 {
        TokenKind::Ident
    } else {
        TokenKind::Invalid
    }
}

/// A cursor into a source text that reads one token at a time. What it reads
/// depends on the source and on the position of the cursor, and on nothing else.
pub struct Tokenizer<'a> {
    source: &'a str,
    position: usize,
}

impl<'a> Tokenizer<'a> {
    #[verifier::type_invariant]
    spec fn well_formed(self) -> bool {
        &&& self.source.is_ascii()
        &&& self.position <= self.source@.len()
    }

    /// The text that is read.
    pub closed spec fn source(&self) -> Seq<char> {
        self.source@
    }

    /// The offset of the cursor.
    pub closed spec fn position(&self) -> int {
        self.position as int
    }

    /// The token that stands next.
    pub open spec fn upcoming(&self) -> Lexeme {
        lexeme_at(self.source(), self.position())
    }

    /// A tokenizer at the start of `source`.
    pub fn new(source: &'a str) -> (tokenizer: Self)
        requires
            source.is_ascii(),
        ensures
            tokenizer.source() == source@,
            tokenizer.position() == 0,
    {
        Self { source, position: 0 }
    }

    /// The class of the next token and the offsets that it lies between. The
    /// cursor stays where it is.
    fn next_kind(&self) -> (next: (TokenKind, Range<usize>))
        ensures
            next.0 == self.upcoming().kind,
            next.1.start == self.upcoming().start,
            next.1.end == self.upcoming().end,
            self.position() <= next.1.start <= next.1.end <= self.source().len(),
    {
        proof {
            use_type_invariant(self);
            is_ascii_spec_bytes(self.source);
            lemma_lexeme_bounds(self.source@, self.position as int);
        }
        let len = self.source.as_bytes().len();
        if self.position >= len {
            return (TokenKind::EOF, self.position..self.position);
        }
        let mut start = self.position;
        while start < len && is_blank_byte(self.source.get_ascii(start))
            invariant
                self.source.is_ascii(),
                len == self.source@.len(),
                self.position <= start <= len,
                self.position + blank_run(self.source@, self.position as int) == start + blank_run(
                    self.source@,
                    start as int,
                ),
            decreases len - start,
        {
            start += 1;
        }
        if start >= len {
            return (TokenKind::EOF, start..start);
        }
        let lead = self.source.get_ascii(start);
        let kind = leading_kind(lead);
        let mut end = start + 1;
        match kind {
            TokenKind::TypeIdent | TokenKind::Ident => {
                while end < len && continues_ident_byte(self.source.get_ascii(end))
                    invariant
                        self.source.is_ascii(),
                        len == self.source@.len(),
                        start < end <= len,
                        (start + 1) + ident_run(self.source@, start + 1) == end + ident_run(
                            self.source@,
                            end as int,
                        ),
                    decreases len - end,
                {
                    end += 1;
                }
            },
            _ => {},
        }
        (kind, start..end)
    }
}

impl<'a> Tokenizer<'a> {
    /// The token of class `kind` that lies between the offsets of `range`.
    fn token_between(&self, kind: TokenKind, range: Range<usize>) -> (token: Token)
        requires
            range.start <= range.end <= self.source().len(),
        ensures
            token.reads(self.source(), Lexeme { kind, start: range.start as int, end: range.end as int }),
    {
        proof {
            use_type_invariant(self);
        }
        let text = self.source.substring_ascii(range.start, range.end);
        kind.at(range, text)
    }

    /// Reads the next token and moves the cursor behind it. At the end of the
    /// source the token is `EOF`, as often as it is asked for.
    pub fn next(&mut self) -> (token: Token)
        ensures
            final(self).source() == old(self).source(),
            final(self).position() == old(self).upcoming().end,
            token.reads(old(self).source(), old(self).upcoming()),
    {
        let (kind, range) = self.next_kind();
        proof {
            use_type_invariant(&*self);
        }
        self.position = range.end;
        self.token_between(kind, range)
    }

    /// Reads the next token if it is of class `expected`, a newline like any
    /// other; if it is not, the cursor stays where it is.
    pub fn try_next(&mut self, expected: TokenKind) -> (token: Option<Token>)
        ensures
            final(self).source() == old(self).source(),
            match token {
                Some(token) => {
                    &&& old(self).upcoming().kind == expected
                    &&& token.reads(old(self).source(), old(self).upcoming())
                    &&& final(self).position() == old(self).upcoming().end
                },
                None => {
                    &&& old(self).upcoming().kind != expected
                    &&& final(self).position() == old(self).position()
                },
            },
    {
        let (kind, range) = self.next_kind();
        if kind == expected {
            proof {
                use_type_invariant(&*self);
            }
            self.position = range.end;
            Some(self.token_between(kind, range))
        } else {
            None
        }
    }

    /// The class of the next token. The cursor stays where it is.
    pub fn peek(&self) -> (kind: TokenKind)
        ensures
            kind == self.upcoming().kind,
    {
        let (kind, _) = self.next_kind();
        kind
    }

    /// Reads the next token that is no newline and moves the cursor behind it.
    pub fn next_skip_newline(&mut self) -> (token: Token)
        ensures
            final(self).source() == old(self).source(),
            final(self).position() == significant_at(old(self).source(), old(self).position()).end,
            token.reads(
                old(self).source(),
                significant_at(old(self).source(), old(self).position()),
            ),
    {
        loop
            invariant
                self.source() == old(self).source(),
                old(self).position() <= self.position(),
                significant_at(self.source(), self.position()) == significant_at(
                    old(self).source(),
                    old(self).position(),
                ),
            decreases self.source().len() - self.position(),
        {
            let (kind, range) = self.next_kind();
            proof {
                use_type_invariant(&*self);
            }
            self.position = range.end;
            if kind != TokenKind::Newline {
                return self.token_between(kind, range);
            }
        }
    }

    /// Whether a token of class `kind` that reads `text` passes for one of
    /// class `expected`: it is of that class, or becomes so as a keyword.
    pub open spec fn passes_for(kind: TokenKind, text: Seq<char>, expected: TokenKind) -> bool {
        kind == expected || Token::lifted(kind, text) == expected
    }

    /// Reads the next token that is no newline. It comes back as `Ok` if it
    /// passes for one of class `expected`, and as `Err` if it does not; either
    /// way the cursor has moved behind it, and an identifier that reads `type`
    /// has become the keyword unless an identifier was expected.
    pub fn expect(&mut self, expected: TokenKind) -> (result: Result<Token, Token>)
        ensures
            final(self).source() == old(self).source(),
            final(self).position() == significant_at(old(self).source(), old(self).position()).end,
            ({
                let lexeme = significant_at(old(self).source(), old(self).position());
                let text = old(self).source().subrange(lexeme.start, lexeme.end);
                match result {
                    Ok(token) => {
                        &&& Self::passes_for(lexeme.kind, text, expected)
                        &&& token.reads(old(self).source(), Lexeme { kind: expected, ..lexeme })
                    },
                    Err(token) => {
                        &&& !Self::passes_for(lexeme.kind, text, expected)
                        &&& token.reads(
                            old(self).source(),
                            Lexeme { kind: Token::lifted(lexeme.kind, text), ..lexeme },
                        )
                    },
                }
            }),
    {
        let t = self.next_skip_newline();
        if t.kind == expected {
            Ok(t)
        } else {
            let t = t.into_keyword();
            if t.kind == expected {
                Ok(t)
            } else {
                Err(t)
            }
        }
    }

    /// Reads all the tokens that are left, up to the end of the source.
    pub fn collect(&mut self) -> (tokens: Vec<Token>)
        ensures
            final(self).source() == old(self).source(),
            final(self).position() == old(self).source().len(),
            tokens.len() == lexemes_from(old(self).source(), old(self).position()).len(),
            forall|i: int|
                0 <= i < tokens.len() ==> (#[trigger] tokens[i]).reads(
                    old(self).source(),
                    lexemes_from(old(self).source(), old(self).position())[i],
                ),
    {
        let mut tokens: Vec<Token> = Vec::new();
        let ghost all = lexemes_from(self.source(), self.position());
        loop
            invariant
                self.source() == old(self).source(),
                all == lexemes_from(old(self).source(), old(self).position()),
                tokens.len() <= all.len(),
                all =~= all.subrange(0, tokens.len() as int) + lexemes_from(
                    self.source(),
                    self.position(),
                ),
                forall|i: int|
                    0 <= i < tokens.len() ==> (#[trigger] tokens[i]).reads(self.source(), all[i]),
            decreases self.source().len() - self.position(),
        {
            let (kind, range) = self.next_kind();
            proof {
                use_type_invariant(&*self);
            }
            self.position = range.end;
            if kind == TokenKind::EOF {
                return tokens;
            }
            let token = self.token_between(kind, range);
            tokens.push(token);
        }
    }
}

} // verus!
