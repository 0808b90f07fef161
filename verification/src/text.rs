//! Operations on text that the tokenizer and the generators share.

use vstd::prelude::*;
use vstd::string::*;
use vstd::utf8::encode_utf8;
use vstd::utf8::encode_utf8_decode_utf8;

verus! {

/// Whether two strings hold the same characters.
pub fn same_text(a: &str, b: &str) -> (same: bool)
    ensures
        same == (a@ == b@),
{
    let x = a.as_bytes();
    let y = b.as_bytes();
    proof {
        encode_utf8_decode_utf8(a@);
        encode_utf8_decode_utf8(b@);
    }
    if x.len() != y.len() {
        return false;
    }
    let mut i: usize = 0;
    while i < x.len()
        invariant
            i <= x.len(),
            x.len() == y.len(),
            x@ == encode_utf8(a@),
            y@ == encode_utf8(b@),
            forall|j: int| 0 <= j < i ==> x@[j] == y@[j],
        decreases x.len() - i,
    {
        if x[i] != y[i] {
            return false;
        }
        i += 1;
    }
    assert(x@ =~= y@);
    true
}

/// The parts in a row, with the separator between each two of them.
pub open spec fn joined(parts: Seq<Seq<char>>, separator: Seq<char>) -> Seq<char>
    decreases parts.len(),
{
    if parts.len() == 0 {
        Seq::empty()
    } else if parts.len() == 1 {
        parts[0]
    } else {
        joined(parts.drop_last(), separator) + separator + parts.last()
    }
}

/// The texts of the strings.
pub open spec fn texts(strings: Seq<String>) -> Seq<Seq<char>> {
    strings.map_values(|string: String| string@)
}

/// The texts of strings with one more string behind them.
pub proof fn lemma_texts_push(strings: Seq<String>, last: String)
    ensures
        texts(strings.push(last)) == texts(strings).push(last@),
{
    assert(texts(strings.push(last)) =~= texts(strings).push(last@));
}

/// Mapping one more element of a sequence adds its image behind the images of
/// those before it.
pub proof fn lemma_map_values_take<A, B>(all: Seq<A>, f: spec_fn(A) -> B, i: int)
    requires
        0 <= i < all.len(),
    ensures
        all.take(i + 1).map_values(f) == all.take(i).map_values(f).push(f(all[i])),
{
    assert(all.take(i + 1).map_values(f) =~= all.take(i).map_values(f).push(f(all[i])));
}

/// Joins the parts into one string, with the separator between each two of
/// them.
pub fn join(parts: &Vec<String>, separator: &str) -> (text: String)
    ensures
        text@ == joined(texts(parts@), separator@),
{
    let mut text = String::new();
    let mut i: usize = 0;
    while i < parts.len()
        invariant
            i <= parts.len(),
            text@ == joined(texts(parts@).take(i as int), separator@),
        decreases parts.len() - i,
    {
        proof {
            let all = texts(parts@);
            assert(all.take(i + 1).drop_last() =~= all.take(i as int));
            assert(all.take(i + 1).last() == parts[i as int]@);
        }
        if i > 0 {
            text.append(separator);
        }
        text.append(parts[i].as_str());
        i += 1;
    }
    assert(texts(parts@).take(parts.len() as int) =~= texts(parts@));
    text
}

/// The white space of Unicode.
pub open spec fn is_space(c: char) -> bool {
    ||| '\u{9}' <= c <= '\u{d}'
    ||| c == ' '
    ||| c == '\u{85}'
    ||| c == '\u{a0}'
    ||| c == '\u{1680}'
    ||| '\u{2000}' <= c <= '\u{200a}'
    ||| c == '\u{2028}'
    ||| c == '\u{2029}'
    ||| c == '\u{202f}'
    ||| c == '\u{205f}'
    ||| c == '\u{3000}'
}

/// How many characters of white space stand in a row from `pos` on.
pub open spec fn space_run(text: Seq<char>, pos: int) -> nat
    decreases text.len() - pos,
{
    if 0 <= pos < text.len() && is_space(text[pos]) {
        1 + space_run(text, pos + 1)
    } else {
        0
    }
}

/// How many characters of white space stand in a row before `end`.
pub open spec fn space_run_back(text: Seq<char>, end: int) -> nat
    decreases end,
{
    if 0 < end <= text.len() && is_space(text[end - 1]) {
        1 + space_run_back(text, end - 1)
    } else {
        0
    }
}

/// `text` without the white space that it starts and ends with.
pub open spec fn trimmed(text: Seq<char>) -> Seq<char> {
    let start = space_run(text, 0) as int;
    let end = text.len() - space_run_back(text, text.len() as int);
    if start >= end {
        Seq::empty()
    } else {
        text.subrange(start, end)
    }
}

/// White space at the start of a text is counted up to the first character
/// that is none.
proof fn lemma_space_run_lead(lead: Seq<char>, rest: Seq<char>, pos: int)
    requires
        forall|i: int| 0 <= i < lead.len() ==> is_space(#[trigger] lead[i]),
        rest.len() > 0,
        !is_space(rest.first()),
        0 <= pos <= lead.len(),
    ensures
        space_run(lead + rest, pos) == lead.len() - pos,
    decreases lead.len() - pos,
{
    let text = lead + rest;
    if pos < lead.len() {
        assert(text[pos] == lead[pos]);
        lemma_space_run_lead(lead, rest, pos + 1);
    } else {
        assert(text[pos] == rest[0]);
    }
}

/// White space at the end of a text is counted back to the last character that
/// is none.
proof fn lemma_space_run_tail(rest: Seq<char>, tail: Seq<char>, end: int)
    requires
        forall|i: int| 0 <= i < tail.len() ==> is_space(#[trigger] tail[i]),
        rest.len() > 0,
        !is_space(rest.last()),
        rest.len() <= end <= rest.len() + tail.len(),
    ensures
        space_run_back(rest + tail, end) == end - rest.len(),
    decreases end,
{
    let text = rest + tail;
    if end > rest.len() {
        assert(text[end - 1] == tail[end - 1 - rest.len()]);
        lemma_space_run_tail(rest, tail, end - 1);
    } else {
        assert(text[end - 1] == rest[rest.len() - 1]);
    }
}

/// A text that neither starts nor ends with white space is what is left of it
/// when white space is put before and behind it and the whole is trimmed.
pub proof fn lemma_trimmed(lead: Seq<char>, core: Seq<char>, tail: Seq<char>)
    requires
        forall|i: int| 0 <= i < lead.len() ==> is_space(#[trigger] lead[i]),
        forall|i: int| 0 <= i < tail.len() ==> is_space(#[trigger] tail[i]),
        core.len() > 0,
        !is_space(core.first()),
        !is_space(core.last()),
    ensures
        trimmed(lead + core + tail) == core,
{
    let text = lead + core + tail;
    assert(text =~= lead + (core + tail));
    assert((core + tail).first() == core.first());
    lemma_space_run_lead(lead, core + tail, 0);
    assert((lead + core).last() == core.last());
    lemma_space_run_tail(lead + core, tail, text.len() as int);
    assert(text.subrange(lead.len() as int, (lead.len() + core.len()) as int) =~= core);
}

/// Parts that are joined start with the first character of the first part, if
/// it has one.
pub proof fn lemma_joined_first(parts: Seq<Seq<char>>, separator: Seq<char>)
    requires
        parts.len() > 0,
        parts[0].len() > 0,
    ensures
        joined(parts, separator).len() > 0,
        joined(parts, separator).first() == parts[0].first(),
    decreases parts.len(),
{
    if parts.len() > 1 {
        lemma_joined_first(parts.drop_last(), separator);
    }
}

fn is_space_char(c: char) -> (space: bool)
    ensures
        space == is_space(c),
{
    ('\u{9}' <= c && c <= '\u{d}') || c == ' ' || c == '\u{85}' || c == '\u{a0}' || c == '\u{1680}'
        || ('\u{2000}' <= c && c <= '\u{200a}') || c == '\u{2028}' || c == '\u{2029}' || c
        == '\u{202f}' || c == '\u{205f}' || c == '\u{3000}'
}

/// The text without the white space that it starts and ends with.
pub fn trim(text: &str) -> (result: String)
    ensures
        result@ == trimmed(text@),
{
    let len = text.unicode_len();
    let mut start: usize = 0;
    while start < len && is_space_char(text.get_char(start))
        invariant
            start <= len,
            len == text@.len(),
            space_run(text@, 0) == start + space_run(text@, start as int),
        decreases len - start,
    {
        start += 1;
    }
    let mut end = len;
    while end > start && is_space_char(text.get_char(end - 1))
        invariant
            start <= end <= len,
            len == text@.len(),
            start < len ==> !is_space(text@[start as int]) && start < end,
            space_run_back(text@, len as int) == (len - end) + space_run_back(text@, end as int),
        decreases end,
    {
        end -= 1;
    }
    proof {
        if start < len {
            assert(!is_space(text@[start as int]));
            assert(end > start);
        } else {
            assert(text@.subrange(start as int, end as int) =~= Seq::<char>::empty());
        }
    }
    text.substring_char(start, end).to_owned()
}

/// The lowercase form of a text, by the case mappings of Unicode.
pub uninterp spec fn lowercase(text: Seq<char>) -> Seq<char>;

/// `str::to_lowercase` of the standard library: the lowercase form of the
/// string, as a new string. It depends on the characters of the string alone.
#[verifier::external_body]
pub(crate) fn to_lowercase(text: &str) -> (lower: String)
    ensures
        lower@ == lowercase(text@),
{
    text.to_lowercase()
}

} // verus!
