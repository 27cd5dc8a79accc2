use vstd::prelude::*;

use crate::feedback::{Feedback, Pattern};
use crate::text::{char_vec, push_char};

verus! {

/// The emoji square for a tile: green, yellow or black.
pub open spec fn emoji_of(f: Feedback) -> char {
    match f {
        Feedback::Green => '\u{1F7E9}',
        Feedback::Yellow => '\u{1F7E8}',
        Feedback::Grey => '\u{2B1B}',
    }
}

/// The pattern as five emoji squares.
pub open spec fn spec_pattern_string(p: Seq<Feedback>) -> Seq<char> {
    Seq::new(5, |i: int| emoji_of(p[i]))
}

fn emoji_char(f: Feedback) -> (c: char)
    ensures
        c == emoji_of(f),
{
    match f {
        Feedback::Green => '\u{1F7E9}',
        Feedback::Yellow => '\u{1F7E8}',
        Feedback::Grey => '\u{2B1B}',
    }
}

/// Render a pattern as five emoji squares.
pub fn pattern_string(pattern: &Pattern) -> (s: String)
    ensures
        s@ == spec_pattern_string(pattern@),
{
    let mut s = String::new();
    let mut i: usize = 0;
    while i < 5
        invariant
            i <= 5,
            s@ == spec_pattern_string(pattern@).take(i as int),
        decreases 5 - i,
    {
        push_char(&mut s, emoji_char(pattern[i]));
        i = i + 1;
        assert(s@ =~= spec_pattern_string(pattern@).take(i as int));
    }
    assert(spec_pattern_string(pattern@).take(5) =~= spec_pattern_string(pattern@));
    s
}

/// The ANSI colour digit of a tile: green 2, yellow 3, white 7.
pub open spec fn colour_digit(f: Feedback) -> char {
    match f {
        Feedback::Green => '2',
        Feedback::Yellow => '3',
        Feedback::Grey => '7',
    }
}

/// A letter wrapped in the ANSI colour of its tile, then a colour reset.
pub open spec fn coloured_letter(f: Feedback, c: char) -> Seq<char> {
    seq!['\x1b', '[', '3', colour_digit(f), 'm', c, '\x1b', '[', '0', 'm']
}

/// The first `n` coloured letters, separated by single spaces.
pub open spec fn coloured_prefix(p: Seq<Feedback>, w: Seq<char>, n: int) -> Seq<char>
    decreases n,
{
    if n <= 0 {
        Seq::empty()
    } else if n == 1 {
        coloured_letter(p[0], w[0])
    } else {
        coloured_prefix(p, w, n - 1) + seq![' '] + coloured_letter(p[n - 1], w[n - 1])
    }
}

fn push_coloured(s: &mut String, f: Feedback, c: char)
    ensures
        final(s)@ == old(s)@ + coloured_letter(f, c),
{
    let digit = match f {
        Feedback::Green => '2',
        Feedback::Yellow => '3',
        Feedback::Grey => '7',
    };
    push_char(s, '\x1b');
    push_char(s, '[');
    push_char(s, '3');
    push_char(s, digit);
    push_char(s, 'm');
    push_char(s, c);
    push_char(s, '\x1b');
    push_char(s, '[');
    push_char(s, '0');
    push_char(s, 'm');
    assert(s@ =~= old(s)@ + coloured_letter(f, c));
}

/// The word with each letter in the ANSI colour of its tile (separated by
/// spaces), and the pattern as emoji squares.
pub fn pattern_parts(pattern: &Pattern, word: &str) -> (parts: (String, String))
    requires
        word@.len() <= 5,
    ensures
        parts.0@ == coloured_prefix(pattern@, word@, word@.len() as int),
        parts.1@ == spec_pattern_string(pattern@),
{
    let chars = char_vec(word);
    let mut coloured = String::new();
    let mut i: usize = 0;
    while i < chars.len()
        invariant
            chars@ == word@,
            chars@.len() <= 5,
            i <= chars@.len(),
            coloured@ == coloured_prefix(pattern@, word@, i as int),
        decreases chars.len() - i,
    {
        if i > 0 {
            push_char(&mut coloured, ' ');
        }
        push_coloured(&mut coloured, pattern[i], chars[i]);
        i = i + 1;
    }
    let emoji = pattern_string(pattern);
    (coloured, emoji)
}

/// The letter code of a tile: `G`, `Y` or `_`.
pub open spec fn code_of(f: Feedback) -> char {
    match f {
        Feedback::Green => 'G',
        Feedback::Yellow => 'Y',
        Feedback::Grey => '_',
    }
}

/// The pattern as five letter codes.
pub open spec fn spec_pattern_code(p: Seq<Feedback>) -> Seq<char> {
    Seq::new(5, |i: int| code_of(p[i]))
}

/// Render a pattern as five letter codes: `G` Green, `Y` Yellow, `_` Grey.
pub fn pattern_code(pattern: &Pattern) -> (s: String)
    ensures
        s@ == spec_pattern_code(pattern@),
{
    let mut s = String::new();
    let mut i: usize = 0;
    while i < 5
        invariant
            i <= 5,
            s@ == spec_pattern_code(pattern@).take(i as int),
        decreases 5 - i,
    {
        let c = match pattern[i] {
            Feedback::Green => 'G',
            Feedback::Yellow => 'Y',
            Feedback::Grey => '_',
        };
        push_char(&mut s, c);
        i = i + 1;
        assert(s@ =~= spec_pattern_code(pattern@).take(i as int));
    }
    assert(spec_pattern_code(pattern@).take(5) =~= spec_pattern_code(pattern@));
    s
}

/// Why a pattern code was refused.
#[derive(Debug, Clone, Copy, PartialEq, Eq, Structural)]
pub enum PatternError {
    /// The code does not have five characters; it has this many.
    WrongLength(usize),
    /// This character is not a tile code.
    InvalidChar(char),
}

/// A character that stands for a tile: `G`, `Y`, or one of `_ . X x` for Grey.
pub open spec fn is_code(c: char) -> bool {
    c == 'G' || c == 'Y' || c == '_' || c == '.' || c == 'X' || c == 'x'
}

/// The tile that a code character stands for.
pub open spec fn tile_of_code(c: char) -> Feedback {
    if c == 'G' {
        Feedback::Green
    } else if c == 'Y' {
        Feedback::Yellow
    } else {
        Feedback::Grey
    }
}

/// The result of reading a pattern code: an error for a length other than
/// five, or for the first character that is not a tile code; the pattern
/// otherwise.
pub open spec fn spec_parse_pattern(s: Seq<char>) -> Result<Seq<Feedback>, PatternError> {
    if s.len() != 5 {
        Err(PatternError::WrongLength(s.len() as usize))
    } else if exists|i: int| 0 <= i < 5 && !is_code(#[trigger] s[i]) {
        let i = choose|i: int|
            0 <= i < 5 && !is_code(#[trigger] s[i]) && forall|k: int|
                0 <= k < i ==> is_code(#[trigger] s[k]);
        Err(PatternError::InvalidChar(s[i]))
    } else {
        Ok(Seq::new(5, |i: int| tile_of_code(s[i])))
    }
}

/// Read a pattern from five letter codes (`G`, `Y`, and `_ . X x` for Grey).
pub fn parse_pattern(s: &str) -> (parsed: Result<Pattern, PatternError>)
    ensures
        match (parsed, spec_parse_pattern(s@)) {
            (Ok(p), Ok(q)) => p@ == q,
            (Err(e), Err(f)) => e == f,
            _ => false,
        },
{
    let chars = char_vec(s);
    if chars.len() != 5 {
        return Err(PatternError::WrongLength(chars.len()));
    }
    let mut pattern: Pattern = [Feedback::Grey; 5];
    let mut i: usize = 0;
    while i < 5
        invariant
            chars@ == s@,
            chars@.len() == 5,
            i <= 5,
            forall|k: int| 0 <= k < i ==> is_code(#[trigger] chars@[k]),
            forall|k: int| 0 <= k < i ==> pattern[k] == tile_of_code(#[trigger] chars@[k]),
        decreases 5 - i,
    {
        let c = chars[i];
        pattern[i] = if c == 'G' {
            Feedback::Green
        } else if c == 'Y' {
            Feedback::Yellow
        } else if c == '_' || c == '.' || c == 'X' || c == 'x' {
            Feedback::Grey
        } else {
            proof {
                let j = i as int;
                assert(0 <= j < 5 && !is_code(s@[j]) && forall|k: int|
                    0 <= k < j ==> is_code(#[trigger] s@[k]));
                let first = choose|m: int|
                    0 <= m < 5 && !is_code(#[trigger] s@[m]) && forall|k: int|
                        0 <= k < m ==> is_code(#[trigger] s@[k]);
                if first < j {
                    assert(is_code(s@[first]));
                } else if first > j {
                    assert(is_code(s@[j]));
                }
            }
            return Err(PatternError::InvalidChar(c));
        };
        i = i + 1;
    }
    assert(pattern@ =~= Seq::new(5, |k: int| tile_of_code(s@[k])));
    Ok(pattern)
}

/// Reading the code of a pattern gives the pattern back.
pub proof fn lemma_pattern_code_roundtrip(p: Seq<Feedback>)
    requires
        p.len() == 5,
    ensures
        spec_parse_pattern(spec_pattern_code(p)) == Ok::<Seq<Feedback>, PatternError>(p),
{
    let code = spec_pattern_code(p);
    assert forall|i: int| 0 <= i < 5 implies is_code(#[trigger] code[i]) by {}
    assert(Seq::new(5, |i: int| tile_of_code(code[i])) =~= p);
}

} // verus!
