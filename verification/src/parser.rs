//! Parser: reads declarations from the tokens of a source text.
//!
//! ```text
//! declaration := TypeKeyword TypeIdent '{' field* '}'
//! field       := Ident ':' type_item delim*
//! type_item   := ( '{' type_item ':' type_item '}' | '[' type_item ']' | TypeIdent ) '?'*
//! delim       := ',' | Newline
//! ```
//!
//! Newlines count only where a field may end; before any other token they are
//! passed over like blanks. The first token that does not fit ends the parse.

use vstd::prelude::*;
use crate::tokenizer::{
    lemma_newlines_end, lexeme_at, newlines_end, significant_at, Lexeme, Token, TokenKind,
    Tokenizer,
};

pub mod delimiters;

verus! {

/// The type of a field.
#[derive(Debug, PartialEq, Eq)]
pub enum TypeItem {
    Array(Box<TypeItem>),
    Dict { key: Box<TypeItem>, value: Box<TypeItem> },
    Optional(Box<TypeItem>),
    Basic(String),
}

/// A named member of a declaration.
#[derive(Clone, Debug, PartialEq, Eq)]
pub struct Field {
    pub ident: String,
    pub ty: TypeItem,
}

/// A declaration: a name and its fields, in the order of the source.
#[derive(Clone, Debug, PartialEq, Eq)]
pub struct Type {
    pub ident: String,
    pub fields: Vec<Field>,
}

/// A `TypeItem` with its names as sequences of characters.
pub enum TypeItemView {
    Array(Box<TypeItemView>),
    Dict { key: Box<TypeItemView>, value: Box<TypeItemView> },
    Optional(Box<TypeItemView>),
    Basic(Seq<char>),
}

/// A `Field` with its names as sequences of characters.
pub struct FieldView {
    pub ident: Seq<char>,
    pub ty: TypeItemView,
}

/// A `Type` with its names as sequences of characters.
pub struct TypeView {
    pub ident: Seq<char>,
    pub fields: Seq<FieldView>,
}

impl TypeItem {
    /// This type item with its names as sequences of characters.
    pub open spec fn as_view(self) -> TypeItemView
        decreases self,
    {
        match self {
            TypeItem::Array(element) => TypeItemView::Array(Box::new(element.as_view())),
            TypeItem::Dict { key, value } => TypeItemView::Dict {
                key: Box::new(key.as_view()),
                value: Box::new(value.as_view()),
            },
            TypeItem::Optional(inner) => TypeItemView::Optional(Box::new(inner.as_view())),
            TypeItem::Basic(name) => TypeItemView::Basic(name@),
        }
    }
}

impl Clone for TypeItem {
    fn clone(&self) -> (copy: Self)
        ensures
            copy == *self,
        decreases self,
    {
        match self {
            TypeItem::Array(element) => TypeItem::Array(Box::new((&**element).clone())),
            TypeItem::Dict { key, value } => TypeItem::Dict {
                key: Box::new((&**key).clone()),
                value: Box::new((&**value).clone()),
            },
            TypeItem::Optional(inner) => TypeItem::Optional(Box::new((&**inner).clone())),
            TypeItem::Basic(name) => TypeItem::Basic(name.clone()),
        }
    }
}

impl View for TypeItem {
    type V = TypeItemView;

    open spec fn view(&self) -> TypeItemView {
        self.as_view()
    }
}

impl View for Field {
    type V = FieldView;

    open spec fn view(&self) -> FieldView {
        FieldView { ident: self.ident@, ty: self.ty@ }
    }
}

impl View for Type {
    type V = TypeView;

    open spec fn view(&self) -> TypeView {
        TypeView { ident: self.ident@, fields: self.fields@.map_values(|field: Field| field@) }
    }
}

/// What the parser looked for where it failed.
#[derive(Clone, Copy, Debug, PartialEq, Eq)]
pub enum Expected {
    /// A token of this class.
    Kind(TokenKind),
    /// The start of a type item: a type name, `[` or `{`. A `(` starts a tuple
    /// type, which the language does not have.
    TypeItem,
}

/// A failed parse: the token that did not fit, and what was looked for in its
/// place.
#[derive(Clone, Debug, PartialEq, Eq)]
pub struct SyntaxError {
    pub found: Token,
    pub expected: Expected,
}

/// A failed parse as a place in the source.
pub struct Mismatch {
    pub found: Lexeme,
    pub expected: Expected,
}

impl SyntaxError {
    /// Whether this error is the failure `mismatch` of a parse of `source`.
    pub open spec fn reports(&self, source: Seq<char>, mismatch: Mismatch) -> bool {
        &&& self.found.reads(source, mismatch.found)
        &&& self.expected == mismatch.expected
    }
}

/// How far a cursor at `pos` is from the end of the source.
pub open spec fn distance(source: Seq<char>, pos: int) -> nat {
    if pos < source.len() {
        (source.len() - pos) as nat
    } else {
        0
    }
}

/// What a token reads as.
pub open spec fn text_of(source: Seq<char>, lexeme: Lexeme) -> Seq<char> {
    source.subrange(lexeme.start, lexeme.end)
}

/// The outcome of expecting a token of class `expected` at `pos`: the token
/// that the cursor ends behind, and whether it passed.
pub open spec fn expect_at(source: Seq<char>, pos: int, expected: TokenKind) -> Result<
    Lexeme,
    Mismatch,
> {
    let lexeme = significant_at(source, pos);
    let text = text_of(source, lexeme);
    if Tokenizer::passes_for(lexeme.kind, text, expected) {
        Ok(Lexeme { kind: expected, ..lexeme })
    } else {
        Err(
            Mismatch {
                found: Lexeme { kind: Token::lifted(lexeme.kind, text), ..lexeme },
                expected: Expected::Kind(expected),
            },
        )
    }
}

/// The offset behind the question marks that stand in a row from `pos` on, and
/// how many they are.
pub open spec fn marks_at(source: Seq<char>, pos: int) -> (int, nat)
    decreases distance(source, pos),
{
    let lexeme = lexeme_at(source, pos);
    if lexeme.kind == TokenKind::QuestionMark {
        let (end, count) = marks_at(source, lexeme.end);
        (end, count + 1)
    } else {
        (pos, 0)
    }
}

/// `item` made optional `count` times over.
pub open spec fn optional(item: TypeItemView, count: nat) -> TypeItemView
    decreases count,
{
    if count == 0 {
        item
    } else {
        TypeItemView::Optional(Box::new(optional(item, (count - 1) as nat)))
    }
}

/// The type item `stem`, which ends before `pos`, with the question marks that
/// follow it, and how far from `from` the whole of it ends.
pub open spec fn with_marks(source: Seq<char>, stem: TypeItemView, from: int, pos: int) -> (
    TypeItemView,
    nat,
) {
    let (end, count) = marks_at(source, pos);
    (optional(stem, count), (end - from) as nat)
}

/// The type item that is spelled from `pos` on, and the number of characters
/// that its spelling takes up from `pos`, or the token at which it fails.
pub open spec fn type_item_at(source: Seq<char>, pos: int) -> Result<(TypeItemView, nat), Mismatch>
    decreases distance(source, pos),
{
    let lead = significant_at(source, pos);
    match lead.kind {
        TokenKind::TypeIdent => Ok(
            with_marks(source, TypeItemView::Basic(text_of(source, lead)), pos, lead.end),
        ),
        TokenKind::BracketOpen => {
            proof {
                lemma_significant_at(source, pos);
            }
            match type_item_at(source, lead.end) {
                Err(mismatch) => Err(mismatch),
                Ok((element, taken)) => match expect_at(
                    source,
                    lead.end + taken,
                    TokenKind::BracketClose,
                ) {
                    Err(mismatch) => Err(mismatch),
                    Ok(close) => Ok(
                        with_marks(source, TypeItemView::Array(Box::new(element)), pos, close.end),
                    ),
                },
            }
        },
        TokenKind::BraceOpen => {
            proof {
                lemma_significant_at(source, pos);
            }
            match type_item_at(source, lead.end) {
                Err(mismatch) => Err(mismatch),
                Ok((key, taken)) => match expect_at(source, lead.end + taken, TokenKind::Colon) {
                    Err(mismatch) => Err(mismatch),
                    Ok(colon) => {
                        proof {
                            lemma_significant_at(source, lead.end + taken);
                        }
                        match type_item_at(source, colon.end) {
                            Err(mismatch) => Err(mismatch),
                            Ok((value, taken)) => match expect_at(
                                source,
                                colon.end + taken,
                                TokenKind::BraceClose,
                            ) {
                                Err(mismatch) => Err(mismatch),
                                Ok(close) => Ok(
                                    with_marks(
                                        source,
                                        TypeItemView::Dict {
                                            key: Box::new(key),
                                            value: Box::new(value),
                                        },
                                        pos,
                                        close.end,
                                    ),
                                ),
                            },
                        }
                    },
                },
            }
        },
        _ => Err(Mismatch { found: lead, expected: Expected::TypeItem }),
    }
}

/// The first token that is no newline lies at or behind the cursor; unless it
/// is `EOF` it lies inside the source and covers at least one character.
pub proof fn lemma_significant_at(source: Seq<char>, pos: int)
    ensures
        pos <= significant_at(source, pos).start <= significant_at(source, pos).end,
        significant_at(source, pos).kind != TokenKind::Newline,
        significant_at(source, pos).kind != TokenKind::TypeKeyword,
        significant_at(source, pos).kind != TokenKind::EOF ==> {
            &&& significant_at(source, pos).start < source.len()
            &&& significant_at(source, pos).start < significant_at(source, pos).end
        },
        significant_at(source, pos).kind == TokenKind::EOF ==> {
            &&& significant_at(source, pos).start >= source.len()
            &&& significant_at(source, pos).start == significant_at(source, pos).end
        },
    decreases distance(source, pos),
{
    let lexeme = lexeme_at(source, pos);
    if lexeme.kind == TokenKind::Newline {
        lemma_significant_at(source, lexeme.end);
    }
}

/// The offset behind the commas and newlines that stand in a row from `pos` on.
pub open spec fn delimiters_end(source: Seq<char>, pos: int) -> int
    decreases distance(source, pos),
{
    let lexeme = lexeme_at(source, pos);
    if lexeme.kind.delimits() {
        delimiters_end(source, lexeme.end)
    } else {
        pos
    }
}

/// The field that is spelled from `pos` on, and the number of characters that
/// it takes up from `pos`, the delimiters behind it included; or the token at
/// which it fails.
pub open spec fn field_at(source: Seq<char>, pos: int) -> Result<(FieldView, nat), Mismatch> {
    match expect_at(source, pos, TokenKind::Ident) {
        Err(mismatch) => Err(mismatch),
        Ok(name) => match expect_at(source, name.end, TokenKind::Colon) {
            Err(mismatch) => Err(mismatch),
            Ok(colon) => match type_item_at(source, colon.end) {
                Err(mismatch) => Err(mismatch),
                Ok((ty, taken)) => Ok(
                    (
                        FieldView { ident: text_of(source, name), ty },
                        (delimiters_end(source, colon.end + taken) - pos) as nat,
                    ),
                ),
            },
        },
    }
}

/// The fields that are spelled from `pos` on up to the brace that closes the
/// declaration, and the number of characters that they and the brace take up
/// from `pos`; or the token at which they fail. The end of the source in place
/// of the brace is such a token.
pub open spec fn fields_at(source: Seq<char>, pos: int) -> Result<(Seq<FieldView>, nat), Mismatch>
    decreases distance(source, pos),
{
    let lead = significant_at(source, pos);
    if lead.kind == TokenKind::BraceClose {
        Ok((Seq::empty(), (lead.end - pos) as nat))
    } else if lead.kind == TokenKind::EOF {
        Err(Mismatch { found: lead, expected: Expected::Kind(TokenKind::BraceClose) })
    } else {
        match field_at(source, pos) {
            Err(mismatch) => Err(mismatch),
            Ok((field, taken)) => {
                proof {
                    lemma_field_at(source, pos);
                }
                match fields_at(source, pos + taken) {
                    Err(mismatch) => Err(mismatch),
                    Ok((rest, more)) => Ok((seq![field] + rest, taken + more)),
                }
            },
        }
    }
}

/// The declaration that is spelled from `pos` on, and the number of characters
/// that it takes up from `pos`; or the token at which it fails.
pub open spec fn declaration_at(source: Seq<char>, pos: int) -> Result<(TypeView, nat), Mismatch> {
    match expect_at(source, pos, TokenKind::TypeKeyword) {
        Err(mismatch) => Err(mismatch),
        Ok(keyword) => match expect_at(source, keyword.end, TokenKind::TypeIdent) {
            Err(mismatch) => Err(mismatch),
            Ok(name) => match expect_at(source, name.end, TokenKind::BraceOpen) {
                Err(mismatch) => Err(mismatch),
                Ok(open) => match fields_at(source, open.end) {
                    Err(mismatch) => Err(mismatch),
                    Ok((fields, taken)) => Ok(
                        (
                            TypeView { ident: text_of(source, name), fields },
                            (open.end + taken - pos) as nat,
                        ),
                    ),
                },
            },
        },
    }
}

/// The declarations that are spelled from `pos` on to the end of the source,
/// or the first token that does not fit.
pub open spec fn declarations_at(source: Seq<char>, pos: int) -> Result<Seq<TypeView>, Mismatch>
    decreases distance(source, pos),
{
    if significant_at(source, pos).kind == TokenKind::EOF {
        Ok(Seq::empty())
    } else {
        match declaration_at(source, pos) {
            Err(mismatch) => Err(mismatch),
            Ok((ty, taken)) => {
                proof {
                    lemma_declaration_at(source, pos);
                }
                match declarations_at(source, pos + taken) {
                    Err(mismatch) => Err(mismatch),
                    Ok(rest) => Ok(seq![ty] + rest),
                }
            },
        }
    }
}

/// A run of delimiters ends at or behind the cursor.
pub proof fn lemma_delimiters_end(source: Seq<char>, pos: int)
    ensures
        pos <= delimiters_end(source, pos),
    decreases distance(source, pos),
{
    let lexeme = lexeme_at(source, pos);
    if lexeme.kind.delimits() {
        lemma_delimiters_end(source, lexeme.end);
    }
}

/// An expected token that is met lies inside the source, at or behind the
/// cursor, and covers at least one character.
pub proof fn lemma_expect_at(source: Seq<char>, pos: int, expected: TokenKind)
    requires
        expected != TokenKind::EOF,
    ensures
        expect_at(source, pos, expected) matches Ok(lexeme) ==> {
            &&& lexeme == Lexeme { kind: expected, ..significant_at(source, pos) }
            &&& pos <= lexeme.start < lexeme.end
            &&& lexeme.start < source.len()
        },
{
    lemma_significant_at(source, pos);
}

/// A field takes up at least one character, starts inside the source, and
/// ends behind the delimiters that follow its type.
pub proof fn lemma_field_at(source: Seq<char>, pos: int)
    ensures
        field_at(source, pos) matches Ok((_, taken)) ==> {
            &&& taken > 0
            &&& pos < source.len()
            &&& expect_at(source, pos, TokenKind::Ident) matches Ok(name)
            &&& expect_at(source, name.end, TokenKind::Colon) matches Ok(colon)
            &&& type_item_at(source, colon.end) matches Ok((_, item))
            &&& pos + taken == delimiters_end(source, colon.end + item)
        },
{
    lemma_expect_at(source, pos, TokenKind::Ident);
    if let Ok(name) = expect_at(source, pos, TokenKind::Ident) {
        lemma_expect_at(source, name.end, TokenKind::Colon);
        if let Ok(colon) = expect_at(source, name.end, TokenKind::Colon) {
            if let Ok((_, taken)) = type_item_at(source, colon.end) {
                lemma_delimiters_end(source, colon.end + taken);
            }
        }
    }
}

/// A declaration takes up at least one character, starts inside the source,
/// and ends behind the brace that closes it.
pub proof fn lemma_declaration_at(source: Seq<char>, pos: int)
    ensures
        declaration_at(source, pos) matches Ok((_, taken)) ==> {
            &&& taken > 0
            &&& pos < source.len()
            &&& expect_at(source, pos, TokenKind::TypeKeyword) matches Ok(keyword)
            &&& expect_at(source, keyword.end, TokenKind::TypeIdent) matches Ok(name)
            &&& expect_at(source, name.end, TokenKind::BraceOpen) matches Ok(open)
            &&& fields_at(source, open.end) matches Ok((_, fields))
            &&& pos + taken == open.end + fields
        },
{
    lemma_expect_at(source, pos, TokenKind::TypeKeyword);
    if let Ok(keyword) = expect_at(source, pos, TokenKind::TypeKeyword) {
        lemma_expect_at(source, keyword.end, TokenKind::TypeIdent);
        if let Ok(name) = expect_at(source, keyword.end, TokenKind::TypeIdent) {
            lemma_expect_at(source, name.end, TokenKind::BraceOpen);
        }
    }
}

/// A run of question marks ends at or behind the cursor.
pub proof fn lemma_marks_at(source: Seq<char>, pos: int)
    ensures
        pos <= marks_at(source, pos).0,
    decreases distance(source, pos),
{
    let lexeme = lexeme_at(source, pos);
    if lexeme.kind == TokenKind::QuestionMark {
        lemma_marks_at(source, lexeme.end);
    }
}

/// A parser over one source text.
pub struct Parser<'a> {
    lexer: Tokenizer<'a>,
}

impl<'a> Parser<'a> {
    /// The text that is parsed.
    pub closed spec fn source(&self) -> Seq<char> {
        self.lexer.source()
    }

    /// The offset up to which the text has been read.
    pub closed spec fn position(&self) -> int {
        self.lexer.position()
    }

    /// A parser at the start of `source`.
    pub fn new(source: &'a str) -> (parser: Self)
        requires
            source.is_ascii(),
        ensures
            parser.source() == source@,
            parser.position() == 0,
    {
        Self { lexer: Tokenizer::new(source) }
    }

    /// Parses one type item. On failure the cursor stands behind the token
    /// that did not fit.
    pub fn parse_type_item(&mut self) -> (result: Result<TypeItem, SyntaxError>)
        ensures
            final(self).source() == old(self).source(),
            match type_item_at(old(self).source(), old(self).position()) {
                Ok((item, taken)) => {
                    &&& result matches Ok(parsed)
                    &&& parsed@ == item
                    &&& final(self).position() == old(self).position() + taken
                },
                Err(mismatch) => {
                    &&& result matches Err(error)
                    &&& error.reports(old(self).source(), mismatch)
                    &&& final(self).position() == mismatch.found.end
                },
            },
        decreases distance(old(self).source(), old(self).position()),
    {
        let ghost source = self.source();
        let ghost from = self.position();
        proof {
            lemma_significant_at(source, from);
        }
        let lead = self.lexer.next_skip_newline();
        let mut ty = match lead.kind {
            TokenKind::BraceOpen => {
                let key = match self.parse_type_item() {
                    Ok(key) => key,
                    Err(error) => {
                        return Err(error);
                    },
                };
                proof {
                    lemma_significant_at(source, self.position());
                }
                match self.lexer.expect(TokenKind::Colon) {
                    Ok(_) => {},
                    Err(found) => {
                        return Err(
                            SyntaxError { found, expected: Expected::Kind(TokenKind::Colon) },
                        );
                    },
                }
                let value = match self.parse_type_item() {
                    Ok(value) => value,
                    Err(error) => {
                        return Err(error);
                    },
                };
                proof {
                    lemma_significant_at(source, self.position());
                }
                match self.lexer.expect(TokenKind::BraceClose) {
                    Ok(_) => {},
                    Err(found) => {
                        return Err(
                            SyntaxError { found, expected: Expected::Kind(TokenKind::BraceClose) },
                        );
                    },
                }
                TypeItem::Dict { key: Box::new(key), value: Box::new(value) }
            },
            TokenKind::BracketOpen => {
                let element = match self.parse_type_item() {
                    Ok(element) => element,
                    Err(error) => {
                        return Err(error);
                    },
                };
                proof {
                    lemma_significant_at(source, self.position());
                }
                match self.lexer.expect(TokenKind::BracketClose) {
                    Ok(_) => {},
                    Err(found) => {
                        return Err(
                            SyntaxError {
                                found,
                                expected: Expected::Kind(TokenKind::BracketClose),
                            },
                        );
                    },
                }
                TypeItem::Array(Box::new(element))
            },
            TokenKind::TypeIdent => TypeItem::Basic(lead.str),
            _ => {
                return Err(SyntaxError { found: lead, expected: Expected::TypeItem });
            },
        };
        let ghost stem = ty@;
        let ghost stem_end = self.position();
        let ghost mut wrapped: nat = 0;
        proof {
            lemma_marks_at(source, stem_end);
        }
        assert(type_item_at(source, from) == Ok::<(TypeItemView, nat), Mismatch>(
            with_marks(source, stem, from, stem_end),
        ));
        loop
            invariant
                self.source() == source,
                source == old(self).source(),
                from == old(self).position(),
                type_item_at(source, from) == Ok::<(TypeItemView, nat), Mismatch>(
                    with_marks(source, stem, from, stem_end),
                ),
                from <= marks_at(source, stem_end).0,
                ty@ == optional(stem, wrapped),
                marks_at(source, stem_end).0 == marks_at(source, self.position()).0,
                marks_at(source, stem_end).1 == marks_at(source, self.position()).1 + wrapped,
            decreases marks_at(source, self.position()).1,
        {
            match self.lexer.try_next(TokenKind::QuestionMark) {
                Some(_) => {
                    ty = TypeItem::Optional(Box::new(ty));
                    proof {
                        wrapped = wrapped + 1;
                    }
                },
                None => {
                    return Ok(ty);
                },
            }
        }
    }
}

/// Newlines before a field do not change what it parses to, nor where it ends.
pub proof fn lemma_field_at_behind_newlines(source: Seq<char>, pos: int)
    ensures
        match field_at(source, pos) {
            Ok((field, taken)) => field_at(source, newlines_end(source, pos)) matches Ok(
                (same, rest),
            ) && same == field && newlines_end(source, pos) + rest == pos + taken,
            Err(mismatch) => field_at(source, newlines_end(source, pos)) == Err::<
                (FieldView, nat),
                Mismatch,
            >(mismatch),
        },
{
    lemma_newlines_end(source, pos);
    lemma_field_at(source, pos);
    lemma_field_at(source, newlines_end(source, pos));
}

/// Newlines before a declaration do not change what it parses to, nor where it
/// ends.
pub proof fn lemma_declaration_at_behind_newlines(source: Seq<char>, pos: int)
    ensures
        match declaration_at(source, pos) {
            Ok((ty, taken)) => declaration_at(source, newlines_end(source, pos)) matches Ok(
                (same, rest),
            ) && same == ty && newlines_end(source, pos) + rest == pos + taken,
            Err(mismatch) => declaration_at(source, newlines_end(source, pos)) == Err::<
                (TypeView, nat),
                Mismatch,
            >(mismatch),
        },
{
    lemma_newlines_end(source, pos);
    lemma_declaration_at(source, pos);
    lemma_declaration_at(source, newlines_end(source, pos));
}

impl<'a> Parser<'a> {
    /// Moves the cursor behind the newlines that stand next.
    fn skip_newlines(&mut self)
        ensures
            final(self).source() == old(self).source(),
            final(self).position() == newlines_end(old(self).source(), old(self).position()),
    {
        while self.lexer.peek() == TokenKind::Newline
            invariant
                self.source() == old(self).source(),
                newlines_end(self.source(), self.position()) == newlines_end(
                    old(self).source(),
                    old(self).position(),
                ),
            decreases distance(self.source(), self.position()),
        {
            self.lexer.next();
        }
    }

    /// Parses one field and the delimiters behind it. On failure the cursor
    /// stands behind the token that did not fit.
    pub fn parse_field(&mut self) -> (result: Result<Field, SyntaxError>)
        ensures
            final(self).source() == old(self).source(),
            match field_at(old(self).source(), old(self).position()) {
                Ok((field, taken)) => {
                    &&& result matches Ok(parsed)
                    &&& parsed@ == field
                    &&& final(self).position() == old(self).position() + taken
                },
                Err(mismatch) => {
                    &&& result matches Err(error)
                    &&& error.reports(old(self).source(), mismatch)
                    &&& final(self).position() == mismatch.found.end
                },
            },
    {
        proof {
            lemma_field_at(self.source(), self.position());
        }
        let ident = match self.lexer.expect(TokenKind::Ident) {
            Ok(ident) => ident,
            Err(found) => {
                return Err(SyntaxError { found, expected: Expected::Kind(TokenKind::Ident) });
            },
        };
        match self.lexer.expect(TokenKind::Colon) {
            Ok(_) => {},
            Err(found) => {
                return Err(SyntaxError { found, expected: Expected::Kind(TokenKind::Colon) });
            },
        }
        let ty = match self.parse_type_item() {
            Ok(ty) => ty,
            Err(error) => {
                return Err(error);
            },
        };
        while self.lexer.peek().is_delim()
            invariant
                self.source() == old(self).source(),
                delimiters_end(self.source(), self.position()) == old(self).position() + field_at(
                    old(self).source(),
                    old(self).position(),
                )->Ok_0.1,
            decreases distance(self.source(), self.position()),
        {
            self.lexer.next();
        }
        Ok(Field { ident: ident.str, ty })
    }

    /// Parses one declaration. On failure the cursor stands behind the token
    /// that did not fit; the end of the source is such a token wherever a
    /// declaration is not complete.
    pub fn parse_declaration(&mut self) -> (result: Result<Type, SyntaxError>)
        ensures
            final(self).source() == old(self).source(),
            match declaration_at(old(self).source(), old(self).position()) {
                Ok((ty, taken)) => {
                    &&& result matches Ok(parsed)
                    &&& parsed@ == ty
                    &&& final(self).position() == old(self).position() + taken
                },
                Err(mismatch) => {
                    &&& result matches Err(error)
                    &&& error.reports(old(self).source(), mismatch)
                    &&& final(self).position() == mismatch.found.end
                },
            },
    {
        let ghost source = self.source();
        proof {
            lemma_significant_at(source, self.position());
        }
        match self.lexer.expect(TokenKind::TypeKeyword) {
            Ok(_) => {},
            Err(found) => {
                return Err(
                    SyntaxError { found, expected: Expected::Kind(TokenKind::TypeKeyword) },
                );
            },
        }
        proof {
            lemma_significant_at(source, self.position());
        }
        let ident = match self.lexer.expect(TokenKind::TypeIdent) {
            Ok(ident) => ident,
            Err(found) => {
                return Err(SyntaxError { found, expected: Expected::Kind(TokenKind::TypeIdent) });
            },
        };
        proof {
            lemma_significant_at(source, self.position());
        }
        match self.lexer.expect(TokenKind::BraceOpen) {
            Ok(_) => {},
            Err(found) => {
                return Err(SyntaxError { found, expected: Expected::Kind(TokenKind::BraceOpen) });
            },
        }
        let ghost body = self.position();
        let mut fields: Vec<Field> = Vec::new();
        loop
            invariant_except_break
                match fields_at(source, self.position()) {
                    Ok((rest, more)) => fields_at(source, body) == Ok::<
                        (Seq<FieldView>, nat),
                        Mismatch,
                    >(
                        (
                            fields@.map_values(|field: Field| field@) + rest,
                            (self.position() - body + more) as nat,
                        ),
                    ),
                    Err(mismatch) => fields_at(source, body) == Err::<
                        (Seq<FieldView>, nat),
                        Mismatch,
                    >(mismatch),
                },
            invariant
                self.source() == source,
                source == old(self).source(),
                old(self).position() <= body <= self.position(),
                declaration_at(source, old(self).position()) == match fields_at(source, body) {
                    Err(mismatch) => Err::<(TypeView, nat), Mismatch>(mismatch),
                    Ok((all, taken)) => Ok(
                        (
                            TypeView { ident: ident.str@, fields: all },
                            (body + taken - old(self).position()) as nat,
                        ),
                    ),
                },
            ensures
                self.source() == source,
                match fields_at(source, body) {
                    Ok((all, taken)) => {
                        &&& fields@.map_values(|field: Field| field@) == all
                        &&& self.position() == body + taken
                    },
                    Err(_) => false,
                },
            decreases distance(source, self.position()),
        {
            let ghost before = self.position();
            let ghost so_far = fields@.map_values(|field: Field| field@);
            proof {
                lemma_newlines_end(source, before);
                lemma_significant_at(source, before);
                lemma_field_at(source, before);
                lemma_field_at_behind_newlines(source, before);
            }
            self.skip_newlines();
            match self.lexer.peek() {
                TokenKind::BraceClose => {
                    self.lexer.next();
                    assert(so_far + Seq::<FieldView>::empty() =~= so_far);
                    break ;
                },
                TokenKind::EOF => {
                    let found = self.lexer.next();
                    return Err(
                        SyntaxError { found, expected: Expected::Kind(TokenKind::BraceClose) },
                    );
                },
                _ => {
                    let field = match self.parse_field() {
                        Ok(field) => field,
                        Err(error) => {
                            return Err(error);
                        },
                    };
                    proof {
                        let parsed = field@;
                        let rest = fields_at(source, self.position());
                        assert(fields@.push(field).map_values(|field: Field| field@) =~= so_far.push(
                            parsed,
                        ));
                        if let Ok((rest, more)) = rest {
                            assert(so_far.push(parsed) + rest =~= so_far + (seq![parsed] + rest));
                        }
                    }
                    fields.push(field);
                },
            }
        }
        Ok(Type { ident: ident.str, fields })
    }

    /// Parses the declarations of the source, from the cursor to the end, where
    /// the cursor then stands. The first token that does not fit fails the
    /// whole parse: no declaration comes back then, only the error, and the
    /// cursor stands behind that token.
    pub fn parse(&mut self) -> (result: Result<Vec<Type>, SyntaxError>)
        ensures
            final(self).source() == old(self).source(),
            match declarations_at(old(self).source(), old(self).position()) {
                Ok(declarations) => {
                    &&& result matches Ok(types)
                    &&& types@.map_values(|ty: Type| ty@) == declarations
                    &&& old(self).position() <= final(self).position()
                    &&& lexeme_at(final(self).source(), final(self).position()).kind
                        == TokenKind::EOF
                },
                Err(mismatch) => {
                    &&& result matches Err(error)
                    &&& error.reports(old(self).source(), mismatch)
                    &&& final(self).position() == mismatch.found.end
                },
            },
    {
        let ghost source = self.source();
        let ghost from = self.position();
        let mut types: Vec<Type> = Vec::new();
        loop
            invariant
                self.source() == source,
                source == old(self).source(),
                from == old(self).position(),
                from <= self.position(),
                match declarations_at(source, self.position()) {
                    Ok(rest) => declarations_at(source, from) == Ok::<Seq<TypeView>, Mismatch>(
                        types@.map_values(|ty: Type| ty@) + rest,
                    ),
                    Err(mismatch) => declarations_at(source, from) == Err::<
                        Seq<TypeView>,
                        Mismatch,
                    >(mismatch),
                },
            decreases distance(source, self.position()),
        {
            let ghost before = self.position();
            let ghost so_far = types@.map_values(|ty: Type| ty@);
            proof {
                lemma_newlines_end(source, before);
                lemma_significant_at(source, before);
                lemma_declaration_at(source, before);
                lemma_declaration_at_behind_newlines(source, before);
            }
            self.skip_newlines();
            if self.lexer.peek() == TokenKind::EOF {
                assert(so_far + Seq::<TypeView>::empty() =~= so_far);
                return Ok(types);
            }
            let ty = match self.parse_declaration() {
                Ok(ty) => ty,
                Err(error) => {
                    return Err(error);
                },
            };
            proof {
                let parsed = ty@;
                assert(types@.push(ty).map_values(|ty: Type| ty@) =~= so_far.push(parsed));
                if let Ok(rest) = declarations_at(source, self.position()) {
                    assert(so_far.push(parsed) + rest =~= so_far + (seq![parsed] + rest));
                }
            }
            types.push(ty);
        }
    }
}

} // verus!
