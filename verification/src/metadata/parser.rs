//! Splitting tag fields that name several artists or genres at once.
//!
//! A field is cut at every separator, each piece is stripped of the white
//! space around it, and pieces with nothing left are dropped.

use crate::library::scanner::{lowercase, lowercase_of};
use vstd::prelude::*;
use vstd::string::StrSliceExecFns;

verus! {

/// The separators, as a regular expression: a comma, semicolon, slash, bar,
/// ideographic comma or ampersand, or one of `ft`, `ft.`, `feat`, `feat.` and
/// `featuring` with white space on both sides.
pub const SEPARATOR_PATTERN: &'static str = "[,;/|、&]|\\s+(?:ft\\.?|feat\\.?|featuring)\\s+";

/// Whether the regular-expression engine accepts `pattern`.
pub uninterp spec fn pattern_compiles(pattern: Seq<char>) -> bool;

/// The pieces of `text` between the matches of `pattern`, in order, the empty
/// pieces at either end and between adjacent matches included.
pub uninterp spec fn pattern_split(pattern: Seq<char>, text: Seq<char>) -> Seq<Seq<char>>;

/// Whether the standard library counts `c` as white space.
pub uninterp spec fn is_white_space(c: char) -> bool;

/// The texts of a sequence of strings.
pub open spec fn texts(strings: Seq<String>) -> Seq<Seq<char>> {
    Seq::new(strings.len(), |i: int| strings[i]@)
}

/// First index at or after `from` that holds no white space; the length of
/// `text` where there is none.
pub open spec fn skip_spaces(text: Seq<char>, from: int) -> int
    decreases text.len() - from,
{
    if 0 <= from < text.len() && is_white_space(text[from]) {
        skip_spaces(text, from + 1)
    } else {
        from
    }
}

/// End of the text that remains when the white space before `to` is removed,
/// going no further back than `floor`.
pub open spec fn drop_spaces(text: Seq<char>, to: int, floor: int) -> int
    decreases to - floor,
{
    if floor < to <= text.len() && is_white_space(text[to - 1]) {
        drop_spaces(text, to - 1, floor)
    } else {
        to
    }
}

/// `text` without the white space at its start and at its end.
pub open spec fn trimmed(text: Seq<char>) -> Seq<char> {
    let start = skip_spaces(text, 0);
    let end = drop_spaces(text, text.len() as int, start);
    text.subrange(start, end)
}

/// The pieces trimmed, those left empty dropped.
pub open spec fn cleaned(pieces: Seq<Seq<char>>) -> Seq<Seq<char>>
    decreases pieces.len(),
{
    if pieces.len() == 0 {
        Seq::empty()
    } else {
        let before = cleaned(pieces.drop_last());
        let piece = trimmed(pieces.last());
        if piece.len() > 0 {
            before.push(piece)
        } else {
            before
        }
    }
}

/// The values of a field, given what the engine makes of the separators.
pub open spec fn parsed_values(value: Seq<char>) -> Seq<Seq<char>> {
    if value.len() == 0 || !pattern_compiles(SEPARATOR_PATTERN@) {
        Seq::empty()
    } else {
        cleaned(pattern_split(SEPARATOR_PATTERN@, value))
    }
}

/// `Regex::new` and `Regex::split` of the `regex` crate: the pieces of
/// `text` between the matches of `pattern`, or `None` where the engine does
/// not accept the pattern.
#[verifier::external_body]
fn split_on_pattern(pattern: &str, text: &str) -> (pieces: Option<Vec<String>>)
    ensures
        pieces is Some <==> pattern_compiles(pattern@),
        pieces matches Some(found) ==> texts(found@) == pattern_split(pattern@, text@),
{
    match regex::Regex::new(pattern) {
        Ok(compiled) => Some(compiled.split(text).map(|piece| piece.to_string()).collect()),
        Err(_) => None,
    }
}

/// `char::is_whitespace`.
#[verifier::external_body]
fn char_is_white_space(c: char) -> (white: bool)
    ensures
        white == is_white_space(c),
{
    c.is_whitespace()
}

/// `text` without the white space around it.
pub fn trim(text: &str) -> (stripped: String)
    ensures
        stripped@ == trimmed(text@),
{
    let length = text.unicode_len();
    let mut start: usize = 0;
    while start < length && char_is_white_space(text.get_char(start))
        invariant
            length == text@.len(),
            start <= length,
            skip_spaces(text@, 0) == skip_spaces(text@, start as int),
        decreases length - start,
    {
        start = start + 1;
    }
    let mut end: usize = length;
    while end > start && char_is_white_space(text.get_char(end - 1))
        invariant
            length == text@.len(),
            start <= end <= length,
            drop_spaces(text@, length as int, start as int) == drop_spaces(
                text@,
                end as int,
                start as int,
            ),
        decreases end - start,
    {
        end = end - 1;
    }
    text.substring_char(start, end).to_owned()
}

/// Whether `needle` stands somewhere in `text`.
pub open spec fn holds(text: Seq<char>, needle: Seq<char>) -> bool {
    exists|at: int|
        0 <= at && at + needle.len() <= text.len() && #[trigger] text.subrange(
            at,
            at + needle.len(),
        ) == needle
}

/// Whether `needle` stands in `text` at place `at`.
fn stands_at(text: &str, needle: &str, at: usize) -> (found: bool)
    requires
        at + needle@.len() <= text@.len(),
    ensures
        found == (text@.subrange(at as int, at + needle@.len()) == needle@),
{
    let length = needle.unicode_len();
    let total = text.unicode_len();
    let mut i: usize = 0;
    while i < length
        invariant
            length == needle@.len(),
            total == text@.len(),
            i <= length,
            at + length <= text@.len(),
            text@.subrange(at as int, at + i) == needle@.subrange(0, i as int),
        decreases length - i,
    {
        if text.get_char(at + i) != needle.get_char(i) {
            proof {
                let piece = text@.subrange(at as int, at + length);
                assert(piece[i as int] != needle@[i as int]);
            }
            return false;
        }
        proof {
            assert(text@.subrange(at as int, at + i + 1) =~= text@.subrange(at as int, at + i).push(
                text@[at + i],
            ));
            assert(needle@.subrange(0, i + 1) =~= needle@.subrange(0, i as int).push(
                needle@[i as int],
            ));
        }
        i = i + 1;
    }
    proof {
        assert(needle@.subrange(0, length as int) =~= needle@);
    }
    true
}

/// Whether `needle` stands somewhere in `text`.
pub fn contains_text(text: &str, needle: &str) -> (found: bool)
    ensures
        found == holds(text@, needle@),
{
    let length = text.unicode_len();
    let width = needle.unicode_len();
    if width > length {
        return false;
    }
    let last = length - width;
    let mut at: usize = 0;
    loop
        invariant
            length == text@.len(),
            width == needle@.len(),
            last == length - width,
            at <= last,
            forall|k: int|
                0 <= k < at ==> #[trigger] text@.subrange(k, k + width) != needle@,
        decreases last - at,
    {
        if stands_at(text, needle, at) {
            return true;
        }
        if at == last {
            return false;
        }
        at = at + 1;
    }
}

/// Whether the name of a tag item says that the item holds lyrics: in lower
/// case it holds `lyric`.
pub fn is_lyrics_key(key: &str) -> (lyrics: bool)
    ensures
        lyrics == holds(lowercase_of(key@), "lyric"@),
{
    let lower = lowercase(key);
    contains_text(lower.as_str(), "lyric")
}

/// Whether `text` holds nothing but white space.
pub fn is_blank(text: &str) -> (blank: bool)
    ensures
        blank == (trimmed(text@).len() == 0),
{
    trim(text).as_str().unicode_len() == 0
}

/// Trims every piece and keeps those that are not empty, in order.
pub fn clean_values(pieces: Vec<String>) -> (values: Vec<String>)
    ensures
        texts(values@) == cleaned(texts(pieces@)),
{
    let mut values: Vec<String> = Vec::new();
    let mut i: usize = 0;
    while i < pieces.len()
        invariant
            i <= pieces@.len(),
            texts(values@) == cleaned(texts(pieces@).subrange(0, i as int)),
        decreases pieces@.len() - i,
    {
        let piece = trim(pieces[i].as_str());
        proof {
            let upto = texts(pieces@).subrange(0, i + 1);
            assert(upto.drop_last() =~= texts(pieces@).subrange(0, i as int));
            assert(upto.last() == pieces@[i as int]@);
        }
        if piece.unicode_len() > 0 {
            let ghost before = texts(values@);
            values.push(piece);
            proof {
                assert(texts(values@) =~= before.push(piece@));
            }
        }
        i = i + 1;
    }
    proof {
        assert(texts(pieces@).subrange(0, pieces@.len() as int) =~= texts(pieces@));
    }
    values
}

/// The single values of a tag field that may name several.
pub fn parse_multi_value(value: &str) -> (values: Vec<String>)
    ensures
        texts(values@) == parsed_values(value@),
{
    if value.unicode_len() == 0 {
        let values: Vec<String> = Vec::new();
        proof {
            assert(texts(values@) =~= Seq::<Seq<char>>::empty());
        }
        return values;
    }
    match split_on_pattern(SEPARATOR_PATTERN, value) {
        Some(pieces) => clean_values(pieces),
        None => {
            let values: Vec<String> = Vec::new();
            proof {
                assert(texts(values@) =~= Seq::<Seq<char>>::empty());
            }
            values
        },
    }
}

/// The artists named by an artist field.
pub fn parse_artists(artist: &str) -> (artists: Vec<String>)
    ensures
        texts(artists@) == parsed_values(artist@),
{
    parse_multi_value(artist)
}

/// The genres named by a genre field.
pub fn parse_genres(genre: &str) -> (genres: Vec<String>)
    ensures
        texts(genres@) == parsed_values(genre@),
{
    parse_multi_value(genre)
}

} // verus!
