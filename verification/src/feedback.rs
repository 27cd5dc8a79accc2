use vstd::prelude::*;

use crate::counts::{
    count_below, lemma_count_ext, lemma_count_flip, lemma_count_mono, lemma_count_none,
    lemma_count_positive, lemma_count_prefix, lemma_count_split,
};
use crate::text::char_vec;

verus! {

/// Colour of one tile of Wordle feedback.
#[derive(Debug, Clone, Copy, PartialEq, Eq, Hash, Structural)]
pub enum Feedback {
    Green,
    Yellow,
    Grey,
}

/// Feedback for the five positions of a guess.
pub type Pattern = [Feedback; 5];

/// Base-3 digit of a feedback colour: Green = 0, Yellow = 1, Grey = 2.
pub open spec fn digit_of(f: Feedback) -> nat {
    match f {
        Feedback::Green => 0,
        Feedback::Yellow => 1,
        Feedback::Grey => 2,
    }
}

/// Colour of a base-3 digit; every digit above 1 reads as Grey.
pub open spec fn feedback_of_digit(d: int) -> Feedback {
    if d == 0 {
        Feedback::Green
    } else if d == 1 {
        Feedback::Yellow
    } else {
        Feedback::Grey
    }
}

/// Base-3 number spelled by the first `n` colours, most significant first.
pub open spec fn key_prefix(p: Seq<Feedback>, n: int) -> nat
    decreases n,
{
    if n <= 0 {
        0
    } else {
        key_prefix(p, n - 1) * 3 + digit_of(p[n - 1])
    }
}

/// The key of a pattern: its five colours read as a base-3 number.
pub open spec fn spec_pattern_key(p: Seq<Feedback>) -> nat {
    key_prefix(p, 5)
}

/// Place value of position `i` in a key.
pub open spec fn place_value(i: int) -> int {
    if i == 0 {
        81
    } else if i == 1 {
        27
    } else if i == 2 {
        9
    } else if i == 3 {
        3
    } else {
        1
    }
}

/// The pattern whose position `i` carries the base-3 digit of `key` at place `i`.
pub open spec fn spec_pattern_from_key(key: int) -> Seq<Feedback> {
    Seq::new(5, |i: int| feedback_of_digit((key / place_value(i)) % 3))
}

/// Encode a pattern as a base-3 integer (0 to 242), Green = 0, Yellow = 1, Grey = 2.
pub fn pattern_key(pattern: &Pattern) -> (key: u8)
    ensures
        key == spec_pattern_key(pattern@),
        key < 243,
{
    let mut key: u8 = 0;
    let mut i: usize = 0;
    while i < 5
        invariant
            0 <= i <= 5,
            key == key_prefix(pattern@, i as int),
            key < pow3_bound(i as int),
        decreases 5 - i,
    {
        let d: u8 = match pattern[i] {
            Feedback::Green => 0,
            Feedback::Yellow => 1,
            Feedback::Grey => 2,
        };
        key = key * 3 + d;
        i = i + 1;
    }
    key
}

/// `3` to the power `n`, for the `n` used by keys.
pub open spec fn pow3_bound(n: int) -> int {
    if n <= 0 {
        1
    } else if n == 1 {
        3
    } else if n == 2 {
        9
    } else if n == 3 {
        27
    } else if n == 4 {
        81
    } else {
        243
    }
}

/// Decode a base-3 key back into a pattern (keys above 242 wrap modulo 243).
pub fn pattern_from_key(key: u8) -> (pattern: Pattern)
    ensures
        pattern@ == spec_pattern_from_key(key as int),
{
    let mut pattern: Pattern = [Feedback::Grey; 5];
    let mut rest: u8 = key;
    let mut i: usize = 5;
    while i > 0
        invariant
            i <= 5,
            rest as int == key as int / pow3_bound(5 - i),
            forall|k: int| i <= k < 5 ==> pattern[k] == spec_pattern_from_key(key as int)[k],
        decreases i,
    {
        i = i - 1;
        let rem = rest % 3;
        pattern[i] = if rem == 0 {
            Feedback::Green
        } else if rem == 1 {
            Feedback::Yellow
        } else {
            Feedback::Grey
        };
        rest = rest / 3;
    }
    pattern
}

/// Decoding the key of a pattern gives the pattern back.
pub proof fn lemma_pattern_key_roundtrip(p: Pattern)
    ensures
        spec_pattern_from_key(spec_pattern_key(p@) as int) == p@,
{
    let d0 = digit_of(p[0]) as int;
    let d1 = digit_of(p[1]) as int;
    let d2 = digit_of(p[2]) as int;
    let d3 = digit_of(p[3]) as int;
    let d4 = digit_of(p[4]) as int;
    let key = spec_pattern_key(p@) as int;
    assert(key == d0 * 81 + d1 * 27 + d2 * 9 + d3 * 3 + d4) by {
        reveal_with_fuel(key_prefix, 6);
    }
    assert((key / 81) % 3 == d0 && (key / 27) % 3 == d1 && (key / 9) % 3 == d2 && (key / 3) % 3
        == d3 && key % 3 == d4) by (nonlinear_arith)
        requires
            key == d0 * 81 + d1 * 27 + d2 * 9 + d3 * 3 + d4,
            0 <= d0 < 3,
            0 <= d1 < 3,
            0 <= d2 < 3,
            0 <= d3 < 3,
            0 <= d4 < 3,
    ;
    assert forall|i: int| 0 <= i < 5 implies #[trigger] spec_pattern_from_key(key)[i] == p@[i] by {
        assert(feedback_of_digit(digit_of(p@[i]) as int) == p@[i]);
    }
    assert(spec_pattern_from_key(key) =~= p@);
}

/// Encoding the pattern decoded from a key gives the key back, modulo 243.
pub proof fn lemma_pattern_from_key_roundtrip(key: u8)
    ensures
        spec_pattern_key(spec_pattern_from_key(key as int)) == key % 243,
{
    let p = spec_pattern_from_key(key as int);
    assert(((key / 81) % 3) * 81 + ((key / 27) % 3) * 27 + ((key / 9) % 3) * 9 + ((key / 3) % 3) * 3
        + key % 3 == key % 243) by (bit_vector);
    assert(spec_pattern_key(p) == ((key / 81) % 3) * 81 + ((key / 27) % 3) * 27 + ((key / 9) % 3) * 9
        + ((key / 3) % 3) * 3 + key % 3) by {
        reveal_with_fuel(key_prefix, 6);
    }
}

/// Solution positions that hold `c` and are not exact matches.
pub open spec fn spare_pred(g: Seq<char>, s: Seq<char>, c: char) -> spec_fn(int) -> bool {
    |j: int| s[j] == c && g[j] != s[j]
}

/// Guess positions that hold `c` and are not exact matches.
pub open spec fn open_pred(g: Seq<char>, s: Seq<char>, c: char) -> spec_fn(int) -> bool {
    |k: int| g[k] == c && g[k] != s[k]
}

/// Copies of `c` in the solution that are not matched exactly by the guess.
pub open spec fn spare_count(g: Seq<char>, s: Seq<char>, c: char) -> nat {
    count_below(5, spare_pred(g, s, c))
}

/// Copies of `c` among the first `n` guess positions that are not exact matches.
pub open spec fn open_count(g: Seq<char>, s: Seq<char>, c: char, n: int) -> nat {
    count_below(n, open_pred(g, s, c))
}

/// Feedback at position `i` of guess `g` against solution `s`: Green on an exact
/// match; otherwise Yellow while the solution still has unmatched copies of the
/// letter left over for the earlier non-exact guess positions holding it; else Grey.
pub open spec fn feedback_at(g: Seq<char>, s: Seq<char>, i: int) -> Feedback {
    if g[i] == s[i] {
        Feedback::Green
    } else if open_count(g, s, g[i], i) < spare_count(g, s, g[i]) {
        Feedback::Yellow
    } else {
        Feedback::Grey
    }
}

/// Feedback of a five-letter guess against a five-letter solution.
pub open spec fn spec_evaluate(g: Seq<char>, s: Seq<char>) -> Seq<Feedback> {
    Seq::new(5, |i: int| feedback_at(g, s, i))
}

/// Solution positions already claimed (by an exact match or by an earlier yellow)
/// that hold `c` and are not exact matches.
pub open spec fn claimed_pred(used: Seq<bool>, g: Seq<char>, s: Seq<char>, c: char) -> spec_fn(
    int,
) -> bool {
    |j: int| used[j] && s[j] == c && g[j] != s[j]
}

/// Number of claimed non-exact solution positions holding `c`.
pub open spec fn claimed_count(used: Seq<bool>, g: Seq<char>, s: Seq<char>, c: char) -> nat {
    count_below(5, claimed_pred(used, g, s, c))
}

/// Evaluate a guess against a solution.
///
/// Exact matches are Green and claim their solution position; then, from left to
/// right, each other guess letter is Yellow if it can claim an unclaimed solution
/// position holding the same letter, and Grey otherwise.
pub fn evaluate(guess: &str, solution: &str) -> (pattern: Pattern)
    requires
        guess@.len() == 5,
        solution@.len() == 5,
    ensures
        pattern@ == spec_evaluate(guess@, solution@),
{
    let g = char_vec(guess);
    let s = char_vec(solution);
    let ghost gs = g@;
    let ghost ss = s@;

    let mut result: Pattern = [Feedback::Grey; 5];
    let mut sol_used: [bool; 5] = [false; 5];

    // Pass 1: exact matches.
    let mut i: usize = 0;
    while i < 5
        invariant
            g@ == gs,
            s@ == ss,
            gs.len() == 5,
            ss.len() == 5,
            0 <= i <= 5,
            forall|k: int|
                0 <= k < i ==> (result[k] == (if gs[k] == ss[k] {
                    Feedback::Green
                } else {
                    Feedback::Grey
                })) && sol_used[k] == (gs[k] == ss[k]),
            forall|k: int| i <= k < 5 ==> result[k] == Feedback::Grey && !sol_used[k],
        decreases 5 - i,
    {
        if g[i] == s[i] {
            result[i] = Feedback::Green;
            sol_used[i] = true;
        }
        i = i + 1;
    }

    proof {
        assert forall|c: char| #[trigger]
            claimed_count(sol_used@, gs, ss, c) == 0 by {
            lemma_count_none(5, claimed_pred(sol_used@, gs, ss, c));
        }
    }

    // Pass 2: letters present elsewhere in the solution.
    let mut i: usize = 0;
    while i < 5
        invariant
            g@ == gs,
            s@ == ss,
            gs.len() == 5,
            ss.len() == 5,
            0 <= i <= 5,
            forall|k: int| 0 <= k < i ==> result[k] == feedback_at(gs, ss, k),
            forall|k: int|
                i <= k < 5 ==> result[k] == (if gs[k] == ss[k] {
                    Feedback::Green
                } else {
                    Feedback::Grey
                }),
            forall|k: int| 0 <= k < 5 && gs[k] == ss[k] ==> sol_used[k],
            forall|c: char| #[trigger]
                claimed_count(sol_used@, gs, ss, c) == min_nat(
                    open_count(gs, ss, c, i as int),
                    spare_count(gs, ss, c),
                ),
        decreases 5 - i,
    {
        let ghost before = sol_used@;
        if g[i] != s[i] {
            let ghost c = gs[i as int];
            let mut hit: usize = 5;
            let mut j: usize = 0;
            while j < 5 && hit == 5
                invariant
                    g@ == gs,
                    s@ == ss,
                    gs.len() == 5,
                    ss.len() == 5,
                    i < 5,
                    c == gs[i as int],
                    sol_used@ == before,
                    j <= 5,
                    hit == 5 || (hit < 5 && !sol_used[hit as int] && ss[hit as int] == c),
                    hit == 5 ==> forall|k: int| 0 <= k < j ==> sol_used[k] || ss[k] != c,
                decreases 5 - j,
            {
                if !sol_used[j] && g[i] == s[j] {
                    hit = j;
                }
                j = j + 1;
            }
            proof {
                lemma_open_step(gs, ss, i as int);
            }
            if hit < 5 {
                proof {
                    lemma_claim(before, gs, ss, hit as int);
                    assert(claimed_count(before, gs, ss, c) == min_nat(
                        open_count(gs, ss, c, i as int),
                        spare_count(gs, ss, c),
                    ));
                    assert(open_count(gs, ss, c, i as int) < spare_count(gs, ss, c));
                }
                result[i] = Feedback::Yellow;
                sol_used[hit] = true;
            } else {
                proof {
                    lemma_count_ext(5, claimed_pred(before, gs, ss, c), spare_pred(gs, ss, c));
                    assert(claimed_count(before, gs, ss, c) == spare_count(gs, ss, c));
                    assert(claimed_count(before, gs, ss, c) == min_nat(
                        open_count(gs, ss, c, i as int),
                        spare_count(gs, ss, c),
                    ));
                }
            }
        } else {
            proof {
                lemma_open_step(gs, ss, i as int);
            }
        }
        i = i + 1;
    }
    assert(result@ =~= spec_evaluate(guess@, solution@));
    result
}

/// The smaller of two naturals.
pub open spec fn min_nat(a: nat, b: nat) -> nat {
    if a <= b {
        a
    } else {
        b
    }
}

/// Extending the guess prefix by position `i` adds it to the open count of its
/// own letter only, and only when it is not an exact match.
proof fn lemma_open_step(g: Seq<char>, s: Seq<char>, i: int)
    requires
        0 <= i < 5,
    ensures
        forall|c: char| #[trigger]
            open_count(g, s, c, i + 1) == open_count(g, s, c, i) + if g[i] == c && g[i] != s[i] {
                1nat
            } else {
                0nat
            },
{
}

/// Claiming an unclaimed non-exact position `j` of the solution adds one to the
/// claimed count of its letter and leaves the other letters alone.
proof fn lemma_claim(used: Seq<bool>, g: Seq<char>, s: Seq<char>, j: int)
    requires
        used.len() == 5,
        0 <= j < 5,
        !used[j],
        g[j] != s[j],
    ensures
        forall|c: char| #[trigger]
            claimed_count(used.update(j, true), g, s, c) == claimed_count(used, g, s, c) + if s[j]
                == c {
                1nat
            } else {
                0nat
            },
        claimed_count(used, g, s, s[j]) < spare_count(g, s, s[j]),
{
    let after = used.update(j, true);
    assert forall|c: char| #[trigger]
        claimed_count(after, g, s, c) == claimed_count(used, g, s, c) + if s[j] == c {
            1nat
        } else {
            0nat
        } by {
        if s[j] == c {
            lemma_count_flip(5, claimed_pred(used, g, s, c), claimed_pred(after, g, s, c), j);
        } else {
            lemma_count_ext(5, claimed_pred(used, g, s, c), claimed_pred(after, g, s, c));
        }
    }
    let c = s[j];
    assert(claimed_count(after, g, s, c) == claimed_count(used, g, s, c) + 1);
    lemma_count_mono(5, claimed_pred(after, g, s, c), spare_pred(g, s, c));
}

/// A lowercase ASCII letter.
pub open spec fn is_lower(c: char) -> bool {
    'a' <= c <= 'z'
}

/// Five lowercase ASCII letters.
pub open spec fn is_word(w: Seq<char>) -> bool {
    w.len() == 5 && forall|i: int| 0 <= i < 5 ==> is_lower(#[trigger] w[i])
}

/// The letter with alphabet index `idx` (`a` is 0).
pub open spec fn letter(idx: int) -> char {
    (idx + 97) as char
}

/// Positions of `w` that hold `c`.
pub open spec fn letter_pred(w: Seq<char>, c: char) -> spec_fn(int) -> bool {
    |k: int| w[k] == c
}

/// Copies of `c` in `w`.
pub open spec fn letter_count(w: Seq<char>, c: char) -> nat {
    count_below(w.len() as int, letter_pred(w, c))
}

/// Guess positions holding `c` whose feedback is Green or Yellow.
pub open spec fn required_pred(g: Seq<char>, p: Seq<Feedback>, c: char) -> spec_fn(int) -> bool {
    |i: int| g[i] == c && p[i] != Feedback::Grey
}

/// Copies of `c` that the feedback proves the solution has.
pub open spec fn required_count(g: Seq<char>, p: Seq<Feedback>, c: char) -> nat {
    count_below(5, required_pred(g, p, c))
}

/// `w` could be the solution, given that guess `g` received feedback `p`:
/// both are five characters long and evaluating `g` against `w` gives `p`.
pub open spec fn spec_consistent(w: Seq<char>, g: Seq<char>, p: Seq<Feedback>) -> bool {
    w.len() == 5 && g.len() == 5 && spec_evaluate(g, w) == p
}

/// Alphabet index of a lowercase letter.
pub(crate) fn letter_idx(c: char) -> (idx: usize)
    requires
        is_lower(c),
    ensures
        idx == c as int - 97,
        idx < 26,
        letter(idx as int) == c,
{
    (c as u8 - 97u8) as usize
}

/// Check whether a candidate word is consistent with a (guess, pattern) pair:
/// whether the guess, evaluated against the word as the solution, would have
/// received that pattern. Words or guesses that are not five characters long
/// are never consistent.
pub fn is_consistent(word: &str, guess: &str, pattern: &Pattern) -> (ok: bool)
    ensures
        ok == spec_consistent(word@, guess@, pattern@),
        ok <==> word@.len() == 5 && guess@.len() == 5 && spec_evaluate(guess@, word@) == pattern@,
{
    if word.unicode_len() != 5 || guess.unicode_len() != 5 {
        return false;
    }
    let produced = evaluate(guess, word);
    let mut i: usize = 0;
    while i < 5
        invariant
            i <= 5,
            produced@ == spec_evaluate(guess@, word@),
            forall|k: int| 0 <= k < i ==> #[trigger] produced@[k] == pattern@[k],
        decreases 5 - i,
    {
        if produced[i] != pattern[i] {
            return false;
        }
        i = i + 1;
    }
    assert(produced@ =~= pattern@);
    true
}

/// Positions where guess and solution both hold `c`.
pub open spec fn exact_pred(g: Seq<char>, s: Seq<char>, c: char) -> spec_fn(int) -> bool {
    |i: int| g[i] == c && g[i] == s[i]
}

/// Non-exact guess positions holding `c` among the first `n` that get Yellow.
pub open spec fn yellow_pred(g: Seq<char>, s: Seq<char>, c: char) -> spec_fn(int) -> bool {
    |i: int| g[i] == c && g[i] != s[i] && open_count(g, s, c, i) < spare_count(g, s, c)
}

/// Among the first `n` positions, as many get Yellow for `c` as the smaller of
/// the open guess copies and the spare solution copies of `c`.
proof fn lemma_yellow_count(g: Seq<char>, s: Seq<char>, c: char, n: int)
    requires
        0 <= n <= 5,
    ensures
        count_below(n, yellow_pred(g, s, c)) == min_nat(open_count(g, s, c, n), spare_count(g, s, c)),
    decreases n,
{
    if n > 0 {
        lemma_yellow_count(g, s, c, n - 1);
    }
}

/// Copies of `c` in `w` split into the exact matches and the rest.
proof fn lemma_letter_split(g: Seq<char>, s: Seq<char>, c: char)
    requires
        g.len() == 5,
        s.len() == 5,
    ensures
        letter_count(s, c) == count_below(5, exact_pred(g, s, c)) + spare_count(g, s, c),
        letter_count(g, c) == count_below(5, exact_pred(g, s, c)) + open_count(g, s, c, 5),
{
    let same = |k: int| g[k] == s[k];
    lemma_count_split(5, letter_pred(s, c), same);
    lemma_count_ext(5, |k: int| letter_pred(s, c)(k) && same(k), exact_pred(g, s, c));
    lemma_count_ext(5, |k: int| letter_pred(s, c)(k) && !same(k), spare_pred(g, s, c));
    lemma_count_split(5, letter_pred(g, c), same);
    lemma_count_ext(5, |k: int| letter_pred(g, c)(k) && same(k), exact_pred(g, s, c));
    lemma_count_ext(5, |k: int| letter_pred(g, c)(k) && !same(k), open_pred(g, s, c));
}

/// The Green and Yellow tiles for `c` are the exact matches plus the yellows.
proof fn lemma_required_split(g: Seq<char>, s: Seq<char>, c: char)
    requires
        g.len() == 5,
        s.len() == 5,
    ensures
        required_count(g, spec_evaluate(g, s), c) == count_below(5, exact_pred(g, s, c)) + min_nat(
            open_count(g, s, c, 5),
            spare_count(g, s, c),
        ),
{
    let p = spec_evaluate(g, s);
    let same = |k: int| g[k] == s[k];
    lemma_count_split(5, required_pred(g, p, c), same);
    lemma_count_ext(5, |k: int| required_pred(g, p, c)(k) && same(k), exact_pred(g, s, c));
    lemma_count_ext(5, |k: int| required_pred(g, p, c)(k) && !same(k), yellow_pred(g, s, c));
    lemma_yellow_count(g, s, c, 5);
}

/// For every letter, the Green and Yellow tiles it receives number the smaller
/// of its copies in the guess and its copies in the solution.
pub proof fn lemma_evaluate_letter_tiles(g: Seq<char>, s: Seq<char>, c: char)
    requires
        g.len() == 5,
        s.len() == 5,
    ensures
        required_count(g, spec_evaluate(g, s), c) == min_nat(letter_count(g, c), letter_count(s, c)),
{
    lemma_letter_split(g, s, c);
    lemma_required_split(g, s, c);
}

/// The solution is always consistent with the feedback that any guess receives
/// against it, so filtering by that feedback never discards the solution.
pub proof fn lemma_solution_consistent(g: Seq<char>, s: Seq<char>)
    requires
        g.len() == 5,
        s.len() == 5,
    ensures
        spec_consistent(s, g, spec_evaluate(g, s)),
{
}

/// A word fits a (guess, pattern) pair exactly when both have five characters
/// and evaluating the guess with the word as the solution gives the pattern.
/// Then each Green tile shows the word's letter at that position, and each
/// Green or Yellow tile shows a letter that the word contains.
pub proof fn lemma_consistent_fits(w: Seq<char>, g: Seq<char>, p: Seq<Feedback>)
    ensures
        spec_consistent(w, g, p) <==> w.len() == 5 && g.len() == 5 && spec_evaluate(g, w) == p,
        spec_consistent(w, g, p) ==> forall|i: int|
            0 <= i < 5 && #[trigger] p[i] == Feedback::Green ==> w[i] == g[i],
        spec_consistent(w, g, p) ==> forall|i: int|
            0 <= i < 5 && #[trigger] p[i] != Feedback::Grey ==> letter_count(w, g[i]) >= 1,
{
    if spec_consistent(w, g, p) {
        assert forall|i: int| 0 <= i < 5 && #[trigger] p[i] == Feedback::Green implies w[i]
            == g[i] by {
            assert(p[i] == feedback_at(g, w, i));
        }
        assert forall|i: int| 0 <= i < 5 && #[trigger] p[i] != Feedback::Grey implies letter_count(
            w,
            g[i],
        ) >= 1 by {
            let c = g[i];
            lemma_evaluate_letter_tiles(g, w, c);
            lemma_count_positive(5, required_pred(g, p, c), i);
        }
    }
}

/// Tile by tile: a tile is Green exactly when guess and solution have the same
/// letter there; and among the guess's non-matching copies of a letter the
/// Yellow tiles go to the leftmost ones, so a copy left of a Yellow copy of
/// the same letter is Yellow too (or Green when it matches).
pub proof fn lemma_evaluate_positions(g: Seq<char>, s: Seq<char>)
    requires
        g.len() == 5,
        s.len() == 5,
    ensures
        forall|i: int|
            0 <= i < 5 ==> (#[trigger] spec_evaluate(g, s)[i] == Feedback::Green <==> g[i] == s[i]),
        forall|k: int, i: int|
            0 <= k < i < 5 && g[k] == g[i] && #[trigger] spec_evaluate(g, s)[i] == Feedback::Yellow
                ==> #[trigger] spec_evaluate(g, s)[k] != Feedback::Grey,
{
    assert forall|k: int, i: int|
        0 <= k < i < 5 && g[k] == g[i] && #[trigger] spec_evaluate(g, s)[i] == Feedback::Yellow
            implies #[trigger] spec_evaluate(g, s)[k] != Feedback::Grey by {
        let c = g[i];
        assert(spec_evaluate(g, s)[i] == feedback_at(g, s, i));
        assert(spec_evaluate(g, s)[k] == feedback_at(g, s, k));
        if g[k] != s[k] {
            lemma_count_prefix(k, i, open_pred(g, s, c));
        }
    }
}

/// A guess gets five Green tiles exactly when it is the solution.
pub proof fn lemma_all_green_iff_solved(g: Seq<char>, s: Seq<char>)
    requires
        g.len() == 5,
        s.len() == 5,
    ensures
        (forall|i: int| 0 <= i < 5 ==> #[trigger] spec_evaluate(g, s)[i] == Feedback::Green) <==> g
            == s,
{
    if forall|i: int| 0 <= i < 5 ==> #[trigger] spec_evaluate(g, s)[i] == Feedback::Green {
        assert forall|i: int| 0 <= i < 5 implies g[i] == s[i] by {
            assert(spec_evaluate(g, s)[i] == Feedback::Green);
        }
        assert(g =~= s);
    }
}

/// Every tile of the pattern is Green.
pub open spec fn spec_all_green(p: Seq<Feedback>) -> bool {
    forall|i: int| 0 <= i < 5 ==> #[trigger] p[i] == Feedback::Green
}

/// True when every tile of the pattern is Green.
pub fn all_green(pattern: &Pattern) -> (solved: bool)
    ensures
        solved == spec_all_green(pattern@),
{
    let mut i: usize = 0;
    while i < 5
        invariant
            i <= 5,
            forall|k: int| 0 <= k < i ==> #[trigger] pattern@[k] == Feedback::Green,
        decreases 5 - i,
    {
        if !matches!(pattern[i], Feedback::Green) {
            return false;
        }
        i = i + 1;
    }
    true
}

} // verus!
