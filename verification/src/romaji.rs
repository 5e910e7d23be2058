//! Romanization of kana readings.

use vstd::prelude::*;
use vstd::std_specs::iter::IteratorSpec;

verus! {

/// The halfwidth voiced sound mark.
pub open spec fn is_voiced_mark(c: char) -> bool {
    c == '\u{FF9E}'
}

/// The halfwidth semi-voiced sound mark.
pub open spec fn is_semi_voiced_mark(c: char) -> bool {
    c == '\u{FF9F}'
}

/// Halfwidth katakana that combine with a following voiced sound mark: `u`,
/// and the `k`, `s`, `t` and `h` rows.
pub open spec fn takes_voiced_mark(c: char) -> bool {
    c == '\u{FF73}' || ('\u{FF76}' <= c && c <= '\u{FF84}') || ('\u{FF8A}' <= c && c <= '\u{FF8E}')
}

/// Halfwidth katakana that combine with a following semi-voiced sound mark:
/// the `h` row.
pub open spec fn takes_semi_voiced_mark(c: char) -> bool {
    '\u{FF8A}' <= c && c <= '\u{FF8E}'
}

/// Whether a sound mark at index `i`, if there is one, directly follows a
/// character that it combines with.
pub open spec fn mark_is_attached(text: Seq<char>, i: int) -> bool {
    &&& is_voiced_mark(text[i]) ==> i > 0 && takes_voiced_mark(text[i - 1])
    &&& is_semi_voiced_mark(text[i]) ==> i > 0 && takes_semi_voiced_mark(text[i - 1])
}

/// The readings on which the conversion is defined: every halfwidth sound
/// mark combines with the character before it. A stray mark has no entry in
/// the conversion tables.
pub open spec fn romanizable(text: Seq<char>) -> bool {
    forall|i: int| 0 <= i < text.len() ==> #[trigger] mark_is_attached(text, i)
}

/// The latin rendering of a kana text.
pub uninterp spec fn romaji_of(kana: Seq<char>) -> Seq<char>;

/// What is stored beside a reading: its latin rendering where the conversion
/// is defined, the reading itself otherwise.
pub open spec fn romanized(reading: Seq<char>) -> Seq<char> {
    if romanizable(reading) {
        romaji_of(reading)
    } else {
        reading
    }
}

/// Calls `wana_kana::ConvertJapanese::to_romaji` on a string slice. The
/// conversion reads only its argument and fixed tables, so its result is a
/// function of the argument, named `romaji_of`. It first folds halfwidth
/// katakana through a table in which no entry starts with a sound mark, and
/// where the lookup matches nothing it subtracts one from zero: readings
/// with a sound mark that does not follow a character it combines with are
/// left out.
#[verifier::external_body]
fn to_romaji(kana: &str) -> (romaji: String)
    requires
        romanizable(kana@),
    ensures
        romaji@ == romaji_of(kana@),
{
    wana_kana::ConvertJapanese::to_romaji(kana)
}

/// Decides `takes_voiced_mark`.
fn combines_with_voiced_mark(c: char) -> (combines: bool)
    ensures
        combines == takes_voiced_mark(c),
{
    c == '\u{FF73}' || ('\u{FF76}' <= c && c <= '\u{FF84}') || ('\u{FF8A}' <= c && c <= '\u{FF8E}')
}

/// Decides `takes_semi_voiced_mark`.
fn combines_with_semi_voiced_mark(c: char) -> (combines: bool)
    ensures
        combines == takes_semi_voiced_mark(c),
{
    '\u{FF8A}' <= c && c <= '\u{FF8E}'
}

/// Decides whether the conversion is defined on `text`.
pub fn is_romanizable(text: &str) -> (ok: bool)
    ensures
        ok == romanizable(text@),
{
    let mut previous: Option<char> = None;
    let mut ok = true;
    for c in it: text.chars()
        invariant
            it.seq() == text@,
            previous == (if it.index() == 0 { None } else { Some(text@[it.index() - 1]) }),
            ok == (forall|i: int| 0 <= i < it.index() ==> #[trigger] mark_is_attached(text@, i)),
    {
        let ghost at = it.index();
        let attached = if c == '\u{FF9E}' {
            match previous {
                Some(base) => combines_with_voiced_mark(base),
                None => false,
            }
        } else if c == '\u{FF9F}' {
            match previous {
                Some(base) => combines_with_semi_voiced_mark(base),
                None => false,
            }
        } else {
            true
        };
        assert(attached == mark_is_attached(text@, at));
        ok = ok && attached;
        previous = Some(c);
    }
    ok
}

/// Romanizes a reading; a reading on which the conversion is not defined is
/// kept as it is.
pub fn transliterate(reading: &str) -> (out: String)
    ensures
        out@ == romanized(reading@),
{
    if is_romanizable(reading) {
        to_romaji(reading)
    } else {
        reading.to_owned()
    }
}

} // verus!
