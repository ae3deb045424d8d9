//! The diff engine: recording the difference of two texts as a unified diff,
//! and replaying such a diff on a base text.

use vstd::prelude::*;

verus! {

/// The unified diff that the engine writes for turning `base` into `edited`.
pub uninterp spec fn recorded_diff(base: Seq<char>, edited: Seq<char>) -> Seq<char>;

/// The text that the engine gets by replaying `patch` on `base`; `None`
/// where the patch is no unified diff or one of its hunks finds no place.
pub uninterp spec fn replayed(base: Seq<char>, patch: Seq<char>) -> Option<Seq<char>>;

/// The most digits that a number in a hunk header may have.
pub const MAX_OFFSET_DIGITS: usize = 9;

/// The length from which on a text counts as long.
pub const LONG_TEXT: usize = 1_000_000_000;

/// A text of fewer than [`LONG_TEXT`] characters. It has fewer lines than
/// that, so that every line number in a diff of two short texts has at
/// most [`MAX_OFFSET_DIGITS`] digits.
pub open spec fn short(text: Seq<char>) -> bool {
    text.len() < LONG_TEXT
}

/// A decimal digit.
pub open spec fn is_digit(c: char) -> bool {
    '0' <= c && c <= '9'
}

/// The number of digits that end the text.
pub open spec fn digit_run(text: Seq<char>) -> nat
    decreases text.len(),
{
    if text.len() == 0 || !is_digit(text.last()) {
        0
    } else {
        1 + digit_run(text.drop_last())
    }
}

/// Where a character stands on its line, as far as hunk headers go. A
/// hunk header is a line `@@ -1,2 +3,4 @@`, with or without a heading
/// after the closing `@@`; its ranges are what stands between the opening
/// `@@ ` and the first ` @@` after it.
#[derive(Debug, Clone, Copy, PartialEq, Eq, Structural)]
pub enum Place {
    /// Nothing of the line has been read.
    LineStart,
    /// The line so far is `@`.
    At,
    /// The line so far is `@@`.
    AtAt,
    /// In the ranges of a hunk header.
    Ranges,
    /// In the ranges, after a blank.
    RangesBlank,
    /// In the ranges, after a blank and `@`.
    RangesBlankAt,
    /// Anywhere else: on a line that is no hunk header, or behind the
    /// ranges of one.
    Elsewhere,
}

/// The place of a character, given the place of the character before it.
pub open spec fn place_after(before: Place, c: char) -> Place {
    if c == '\n' {
        Place::LineStart
    } else {
        match before {
            Place::LineStart => if c == '@' {
                Place::At
            } else {
                Place::Elsewhere
            },
            Place::At => if c == '@' {
                Place::AtAt
            } else {
                Place::Elsewhere
            },
            Place::AtAt => if c == ' ' {
                Place::Ranges
            } else {
                Place::Elsewhere
            },
            Place::Ranges => if c == ' ' {
                Place::RangesBlank
            } else {
                Place::Ranges
            },
            Place::RangesBlank => if c == ' ' {
                Place::RangesBlank
            } else if c == '@' {
                Place::RangesBlankAt
            } else {
                Place::Ranges
            },
            Place::RangesBlankAt => if c == ' ' {
                Place::RangesBlank
            } else if c == '@' {
                Place::Elsewhere
            } else {
                Place::Ranges
            },
            Place::Elsewhere => Place::Elsewhere,
        }
    }
}

/// The place of the last character of the text.
pub open spec fn place_of(text: Seq<char>) -> Place
    decreases text.len(),
{
    if text.len() == 0 {
        Place::LineStart
    } else {
        place_after(place_of(text.drop_last()), text.last())
    }
}

/// No number in the ranges of a hunk header has more than
/// [`MAX_OFFSET_DIGITS`] digits.
pub open spec fn offsets_bounded(patch: Seq<char>) -> bool {
    forall|n: int|
        0 < n <= patch.len() ==> !(#[trigger] place_of(patch.take(n)) == Place::Ranges
            && digit_run(patch.take(n)) > MAX_OFFSET_DIGITS)
}

/// `patch` turns `base` into `result`, and the engine can be trusted with it.
pub open spec fn replays(base: Seq<char>, patch: Seq<char>, result: Seq<char>) -> bool {
    offsets_bounded(patch) && replayed(base, patch) == Some(result)
}

/// Moves on by one character.
fn next_place(before: Place, c: char) -> (after: Place)
    ensures
        after == place_after(before, c),
{
    if c == '\n' {
        Place::LineStart
    } else {
        match before {
            Place::LineStart => if c == '@' {
                Place::At
            } else {
                Place::Elsewhere
            },
            Place::At => if c == '@' {
                Place::AtAt
            } else {
                Place::Elsewhere
            },
            Place::AtAt => if c == ' ' {
                Place::Ranges
            } else {
                Place::Elsewhere
            },
            Place::Ranges => if c == ' ' {
                Place::RangesBlank
            } else {
                Place::Ranges
            },
            Place::RangesBlank => if c == ' ' {
                Place::RangesBlank
            } else if c == '@' {
                Place::RangesBlankAt
            } else {
                Place::Ranges
            },
            Place::RangesBlankAt => if c == ' ' {
                Place::RangesBlank
            } else if c == '@' {
                Place::Elsewhere
            } else {
                Place::Ranges
            },
            Place::Elsewhere => Place::Elsewhere,
        }
    }
}

/// Checks that the numbers in the ranges of the hunk headers of `patch`
/// are short enough for the engine's unchecked range arithmetic.
pub fn offsets_fit(patch: &str) -> (r: bool)
    ensures
        r == offsets_bounded(patch@),
{
    let mut place = Place::LineStart;
    let mut run: usize = 0;
    for c in it: patch.chars()
        invariant
            it.seq() == patch@,
            place == place_of(patch@.take(it.index())),
            run as nat == digit_run(patch@.take(it.index())) || (run == MAX_OFFSET_DIGITS
                && digit_run(patch@.take(it.index())) >= MAX_OFFSET_DIGITS),
            run <= MAX_OFFSET_DIGITS,
            forall|n: int|
                0 < n <= it.index() ==> !(#[trigger] place_of(patch@.take(n)) == Place::Ranges
                    && digit_run(patch@.take(n)) > MAX_OFFSET_DIGITS),
    {
        let ghost now = patch@.take(it.index() + 1);
        proof {
            assert(now.drop_last() == patch@.take(it.index()));
        }
        place = next_place(place, c);
        if '0' <= c && c <= '9' {
            if run == MAX_OFFSET_DIGITS {
                if place == Place::Ranges {
                    assert(place_of(now) == Place::Ranges && digit_run(now) > MAX_OFFSET_DIGITS);
                    return false;
                }
            } else {
                run = run + 1;
            }
        } else {
            run = 0;
        }
    }
    true
}

/// `diffy::create_patch`, written out with the `Display` of `diffy::Patch`.
///
/// Trusted: the result is the engine's unified diff of the two texts, and,
/// as the engine documents, applying it to `base` recovers `edited`. The
/// numbers in its hunk headers are line numbers and line counts of the two
/// texts, and it writes no heading behind them; so for short texts they
/// have at most nine digits.
#[verifier::external_body]
pub(crate) fn create_patch_text(base: &str, edited: &str) -> (patch: String)
    ensures
        patch@ == recorded_diff(base@, edited@),
        replayed(base@, patch@) == Some(edited@),
        short(base@) && short(edited@) ==> offsets_bounded(patch@),
{
    diffy::create_patch(base, edited).to_string()
}

/// `diffy::Patch::from_str` followed by `diffy::apply`.
///
/// Trusted: the result is the engine's replay of the patch on the base
/// text, and `None` where the engine reports a parse or an apply error.
/// The engine adds a hunk's start and length unchecked, so hunk headers
/// with overlong numbers in their ranges are kept away from it.
#[verifier::external_body]
pub(crate) fn apply_patch_text(base: &str, patch: &str) -> (r: Option<String>)
    requires
        offsets_bounded(patch@),
    ensures
        r is Some <==> replayed(base@, patch@) is Some,
        r matches Some(text) ==> replayed(base@, patch@) == Some(text@),
{
    match diffy::Patch::from_str(patch) {
        Ok(parsed) => match diffy::apply(base, &parsed) {
            Ok(text) => Some(text),
            Err(_) => None,
        },
        Err(_) => None,
    }
}

} // verus!
