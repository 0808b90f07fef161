//! The two field delimiters are interchangeable: a source that parses still
//! parses, and to the same declarations, when commas in it are replaced by
//! newlines.

use vstd::prelude::*;
use crate::parser::{
    declaration_at, declarations_at, delimiters_end, distance, expect_at, field_at, fields_at,
    lemma_declaration_at, lemma_expect_at, lemma_field_at, lemma_significant_at, marks_at,
    text_of, type_item_at,
};
use crate::tokenizer::{
    blank_run, ident_run, lemma_ident_run_bound, lexeme_at, significant_at, TokenKind,
};

verus! {

/// Whether `other` is `source` with some of its commas replaced by newlines,
/// and nothing else changed.
pub open spec fn newlines_for_commas(source: Seq<char>, other: Seq<char>) -> bool {
    &&& source.len() == other.len()
    &&& forall|i: int|
        #![trigger source[i]]
        #![trigger other[i]]
        0 <= i < source.len() ==> source[i] == other[i] || (source[i] == ',' && other[i] == '\n')
}

/// Whether a token of this class is read as its text: the names.
pub open spec fn is_name(kind: TokenKind) -> bool {
    kind == TokenKind::Ident || kind == TokenKind::TypeIdent
}

proof fn lemma_blank_run(source: Seq<char>, other: Seq<char>, pos: int)
    requires
        newlines_for_commas(source, other),
    ensures
        blank_run(source, pos) == blank_run(other, pos),
    decreases source.len() - pos,
{
    if 0 <= pos < source.len() {
        assert(source[pos] == other[pos] || (source[pos] == ',' && other[pos] == '\n'));
        lemma_blank_run(source, other, pos + 1);
    }
}

proof fn lemma_ident_run(source: Seq<char>, other: Seq<char>, pos: int)
    requires
        newlines_for_commas(source, other),
    ensures
        ident_run(source, pos) == ident_run(other, pos),
        forall|i: int|
            pos <= i < pos + ident_run(source, pos) ==> #[trigger] source[i] == other[i],
    decreases source.len() - pos,
{
    if 0 <= pos < source.len() {
        assert(source[pos] == other[pos] || (source[pos] == ',' && other[pos] == '\n'));
        lemma_ident_run(source, other, pos + 1);
    }
}

/// The two sources have their tokens at the same places. A token is of the
/// same class in both, and a name reads the same in both, unless it is a
/// comma in the one and a newline in the other.
pub proof fn lemma_lexeme_at(source: Seq<char>, other: Seq<char>, pos: int)
    requires
        newlines_for_commas(source, other),
        0 <= pos,
    ensures
        lexeme_at(other, pos).start == lexeme_at(source, pos).start,
        lexeme_at(other, pos).end == lexeme_at(source, pos).end,
        lexeme_at(other, pos).kind == lexeme_at(source, pos).kind || (lexeme_at(source, pos).kind
            == TokenKind::Comma && lexeme_at(other, pos).kind == TokenKind::Newline),
        is_name(lexeme_at(source, pos).kind) ==> text_of(other, lexeme_at(source, pos)) == text_of(
            source,
            lexeme_at(source, pos),
        ),
{
    lemma_blank_run(source, other, pos);
    let start = pos + blank_run(source, pos);
    if start < source.len() {
        assert(source[start] == other[start] || (source[start] == ',' && other[start] == '\n'));
        lemma_ident_run(source, other, start + 1);
        let lexeme = lexeme_at(source, pos);
        if is_name(lexeme.kind) {
            lemma_ident_run_bound(source, start + 1);
            assert(text_of(other, lexeme) =~= text_of(source, lexeme));
        }
    }
}

/// The first token that is no newline is the same in both sources, unless it
/// is a comma in the first.
pub proof fn lemma_significant(source: Seq<char>, other: Seq<char>, pos: int)
    requires
        newlines_for_commas(source, other),
        0 <= pos,
        significant_at(source, pos).kind != TokenKind::Comma,
    ensures
        significant_at(other, pos) == significant_at(source, pos),
        is_name(significant_at(source, pos).kind) ==> text_of(other, significant_at(source, pos))
            == text_of(source, significant_at(source, pos)),
    decreases distance(source, pos),
{
    lemma_lexeme_at(source, other, pos);
    let lexeme = lexeme_at(source, pos);
    if lexeme.kind == TokenKind::Newline {
        lemma_significant(source, other, lexeme.end);
    }
}

/// A token that is met where it is expected in the first source is met in the
/// second.
pub proof fn lemma_expect(source: Seq<char>, other: Seq<char>, pos: int, expected: TokenKind)
    requires
        newlines_for_commas(source, other),
        0 <= pos,
        expected != TokenKind::Comma,
        expected != TokenKind::EOF,
        expect_at(source, pos, expected) is Ok,
    ensures
        expect_at(other, pos, expected) == expect_at(source, pos, expected),
        is_name(significant_at(source, pos).kind) ==> text_of(other, significant_at(source, pos))
            == text_of(source, significant_at(source, pos)),
{
    lemma_significant(source, other, pos);
}

/// The question marks behind a type item are the same in both sources.
pub proof fn lemma_marks(source: Seq<char>, other: Seq<char>, pos: int)
    requires
        newlines_for_commas(source, other),
        0 <= pos,
    ensures
        marks_at(other, pos) == marks_at(source, pos),
    decreases distance(source, pos),
{
    lemma_lexeme_at(source, other, pos);
    let lexeme = lexeme_at(source, pos);
    if lexeme.kind == TokenKind::QuestionMark {
        lemma_marks(source, other, lexeme.end);
    }
}

/// The delimiters behind a field end at the same place in both sources: a
/// newline delimits as a comma does.
pub proof fn lemma_delimiters(source: Seq<char>, other: Seq<char>, pos: int)
    requires
        newlines_for_commas(source, other),
        0 <= pos,
    ensures
        delimiters_end(other, pos) == delimiters_end(source, pos),
    decreases distance(source, pos),
{
    lemma_lexeme_at(source, other, pos);
    let lexeme = lexeme_at(source, pos);
    if lexeme.kind.delimits() {
        lemma_delimiters(source, other, lexeme.end);
    }
}

/// A type item of the first source is the same type item of the second.
pub proof fn lemma_type_item(source: Seq<char>, other: Seq<char>, pos: int)
    requires
        newlines_for_commas(source, other),
        0 <= pos,
        type_item_at(source, pos) is Ok,
    ensures
        type_item_at(other, pos) == type_item_at(source, pos),
    decreases distance(source, pos),
{
    lemma_significant_at(source, pos);
    lemma_significant(source, other, pos);
    let lead = significant_at(source, pos);
    match lead.kind {
        TokenKind::TypeIdent => {
            lemma_marks(source, other, lead.end);
        },
        TokenKind::BracketOpen => {
            lemma_type_item(source, other, lead.end);
            let taken = type_item_at(source, lead.end)->Ok_0.1;
            lemma_expect(source, other, lead.end + taken, TokenKind::BracketClose);
            lemma_expect_at(source, lead.end + taken, TokenKind::BracketClose);
            let close = expect_at(source, lead.end + taken, TokenKind::BracketClose)->Ok_0;
            lemma_marks(source, other, close.end);
        },
        TokenKind::BraceOpen => {
            lemma_type_item(source, other, lead.end);
            let taken = type_item_at(source, lead.end)->Ok_0.1;
            lemma_expect(source, other, lead.end + taken, TokenKind::Colon);
            lemma_expect_at(source, lead.end + taken, TokenKind::Colon);
            let colon = expect_at(source, lead.end + taken, TokenKind::Colon)->Ok_0;
            lemma_type_item(source, other, colon.end);
            let more = type_item_at(source, colon.end)->Ok_0.1;
            lemma_expect(source, other, colon.end + more, TokenKind::BraceClose);
            lemma_expect_at(source, colon.end + more, TokenKind::BraceClose);
            let close = expect_at(source, colon.end + more, TokenKind::BraceClose)->Ok_0;
            lemma_marks(source, other, close.end);
        },
        _ => {},
    }
}

/// A field of the first source is the same field of the second, and ends at
/// the same place.
pub proof fn lemma_field(source: Seq<char>, other: Seq<char>, pos: int)
    requires
        newlines_for_commas(source, other),
        0 <= pos,
        field_at(source, pos) is Ok,
    ensures
        field_at(other, pos) == field_at(source, pos),
{
    lemma_expect(source, other, pos, TokenKind::Ident);
    lemma_expect_at(source, pos, TokenKind::Ident);
    let name = expect_at(source, pos, TokenKind::Ident)->Ok_0;
    lemma_expect(source, other, name.end, TokenKind::Colon);
    lemma_expect_at(source, name.end, TokenKind::Colon);
    let colon = expect_at(source, name.end, TokenKind::Colon)->Ok_0;
    lemma_type_item(source, other, colon.end);
    let taken = type_item_at(source, colon.end)->Ok_0.1;
    lemma_delimiters(source, other, colon.end + taken);
}

/// The fields of a declaration of the first source are the same fields in the
/// second.
pub proof fn lemma_fields(source: Seq<char>, other: Seq<char>, pos: int)
    requires
        newlines_for_commas(source, other),
        0 <= pos,
        fields_at(source, pos) is Ok,
    ensures
        fields_at(other, pos) == fields_at(source, pos),
    decreases distance(source, pos),
{
    let lead = significant_at(source, pos);
    if lead.kind == TokenKind::BraceClose {
        lemma_significant(source, other, pos);
    } else if lead.kind != TokenKind::EOF {
        lemma_field_at(source, pos);
        lemma_significant(source, other, pos);
        lemma_field(source, other, pos);
        let taken = field_at(source, pos)->Ok_0.1;
        lemma_fields(source, other, pos + taken);
    }
}

/// A declaration of the first source is the same declaration of the second.
pub proof fn lemma_declaration(source: Seq<char>, other: Seq<char>, pos: int)
    requires
        newlines_for_commas(source, other),
        0 <= pos,
        declaration_at(source, pos) is Ok,
    ensures
        declaration_at(other, pos) == declaration_at(source, pos),
{
    lemma_expect(source, other, pos, TokenKind::TypeKeyword);
    lemma_expect_at(source, pos, TokenKind::TypeKeyword);
    let keyword = expect_at(source, pos, TokenKind::TypeKeyword)->Ok_0;
    lemma_expect(source, other, keyword.end, TokenKind::TypeIdent);
    lemma_expect_at(source, keyword.end, TokenKind::TypeIdent);
    let name = expect_at(source, keyword.end, TokenKind::TypeIdent)->Ok_0;
    lemma_expect(source, other, name.end, TokenKind::BraceOpen);
    lemma_expect_at(source, name.end, TokenKind::BraceOpen);
    let open = expect_at(source, name.end, TokenKind::BraceOpen)->Ok_0;
    lemma_fields(source, other, open.end);
}

/// The declarations from `pos` on are the same in both sources.
pub proof fn lemma_declarations(source: Seq<char>, other: Seq<char>, pos: int)
    requires
        newlines_for_commas(source, other),
        0 <= pos,
        declarations_at(source, pos) is Ok,
    ensures
        declarations_at(other, pos) == declarations_at(source, pos),
    decreases distance(source, pos),
{
    if significant_at(source, pos).kind == TokenKind::EOF {
        lemma_significant(source, other, pos);
    } else {
        lemma_declaration_at(source, pos);
        lemma_significant(source, other, pos);
        lemma_declaration(source, other, pos);
        let taken = declaration_at(source, pos)->Ok_0.1;
        lemma_declarations(source, other, pos + taken);
    }
}

/// A source that parses still parses, and to the same declarations, when
/// commas in it are replaced by newlines: which of the two delimiters stands
/// between two fields makes no difference.
pub proof fn lemma_newlines_for_commas(source: Seq<char>, other: Seq<char>)
    requires
        newlines_for_commas(source, other),
        declarations_at(source, 0) is Ok,
    ensures
        declarations_at(other, 0) == declarations_at(source, 0),
{
    lemma_declarations(source, other, 0);
}

} // verus!
