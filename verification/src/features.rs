use vstd::prelude::*;

use crate::counts::{count_below, lemma_count_at_most, lemma_count_ext};
use crate::feedback::{is_lower, letter, letter_idx, Feedback, Pattern};
use crate::text::char_vec;

verus! {

/// Number of state features: 5 x 26 green, 5 x 26 yellow, 26 counts, 26 grey.
pub const STATE_DIM: usize = 312;

/// Number of word features: 5 x 26 one-hot.
pub const WORD_DIM: usize = 130;

/// The letter index that the encoder reads off a character: the low byte of
/// its code minus that of `a`, so `a`..`z` give 0..25 and no other ASCII
/// character gives an index below 26.
pub open spec fn tile_index(c: char) -> int {
    (c as u32) % 256 - 97
}

/// A character whose code's low byte is at least that of `a`: the encoder
/// reads a letter index off no other.
pub open spec fn readable(c: char) -> bool {
    (c as u32) % 256 >= 97
}

/// The index of the first guess (in history order, among the first `n`) that
/// got Green at position `pos`.
pub open spec fn first_green(history: Seq<(String, Pattern)>, pos: int, n: int) -> Option<int>
    decreases n,
{
    if n <= 0 {
        None
    } else {
        match first_green(history, pos, n - 1) {
            Some(j) => Some(j),
            None => if history[n - 1].1@[pos] == Feedback::Green {
                Some(n - 1)
            } else {
                None
            },
        }
    }
}

/// A history the encoder reads: every guess has at most five characters, all
/// readable, and the first guess with a Green at a position has a character
/// there.
pub open spec fn encodable(history: Seq<(String, Pattern)>) -> bool {
    &&& forall|j: int| 0 <= j < history.len() ==> #[trigger] history[j].0@.len() <= 5
    &&& forall|j: int, i: int|
        0 <= j < history.len() && 0 <= i < history[j].0@.len() ==> readable(
            #[trigger] history[j].0@[i],
        )
    &&& forall|pos: int|
        0 <= pos < 5 ==> (#[trigger] first_green(history, pos, history.len() as int) matches Some(
            j,
        ) ==> pos < history[j].0@.len())
}

/// Some guess has, at position `pos`, a Yellow tile showing letter index `l`.
pub open spec fn yellow_seen(history: Seq<(String, Pattern)>, pos: int, l: int) -> bool {
    exists|j: int|
        0 <= j < history.len() && #[trigger] history[j].1@[pos] == Feedback::Yellow && pos
            < history[j].0@.len() && tile_index(history[j].0@[pos]) == l
}

/// Positions of guess `g` whose tile in `p` is Green or Yellow and shows
/// letter index `l`.
pub open spec fn shown_pred(g: Seq<char>, p: Seq<Feedback>, l: int) -> spec_fn(int) -> bool {
    |i: int| i < g.len() && p[i] != Feedback::Grey && tile_index(g[i]) == l
}

/// The minimum number of copies of letter index `l` that the first `n`
/// guesses show the solution to have: the most Green and Yellow tiles for
/// it in one guess.
pub open spec fn required_copies(history: Seq<(String, Pattern)>, l: int, n: int) -> nat
    decreases n,
{
    if n <= 0 {
        0
    } else {
        let before = required_copies(history, l, n - 1);
        let here = count_below(5, shown_pred(history[n - 1].0@, history[n - 1].1@, l));
        if here > before {
            here
        } else {
            before
        }
    }
}

/// Some guess shows letter index `l` on a tile whose colour is (`grey`) or is
/// not (`!grey`) Grey.
pub open spec fn tile_seen(history: Seq<(String, Pattern)>, l: int, grey: bool) -> bool {
    exists|j: int, i: int|
        0 <= j < history.len() && 0 <= i < 5 && i < history[j].0@.len() && tile_index(
            history[j].0@[i],
        ) == l && (#[trigger] history[j].1@[i] == Feedback::Grey) == grey
}

/// The integer state features of a history:
/// `[pos * 26 + l]` is 1 when the first Green at `pos` shows letter `l`;
/// `[130 + pos * 26 + l]` is 1 when letter `l` got Yellow at `pos`;
/// `[260 + l]` is the minimum number of copies of letter `l` required, the
/// most Green and Yellow tiles showing `l` in a single guess;
/// `[286 + l]` is 1 when letter `l` got Grey and never Green or Yellow.
pub open spec fn spec_state_feature(history: Seq<(String, Pattern)>, idx: int) -> int {
    if idx < 130 {
        let pos = idx / 26;
        let l = idx % 26;
        match first_green(history, pos, history.len() as int) {
            Some(j) => if tile_index(history[j].0@[pos]) == l {
                1
            } else {
                0
            },
            None => 0,
        }
    } else if idx < 260 {
        let pos = (idx - 130) / 26;
        let l = (idx - 130) % 26;
        if yellow_seen(history, pos, l) {
            1
        } else {
            0
        }
    } else if idx < 286 {
        required_copies(history, idx - 260, history.len() as int) as int
    } else {
        let l = idx - 286;
        if tile_seen(history, l, true) && !tile_seen(history, l, false) {
            1
        } else {
            0
        }
    }
}

/// The letter index the encoder reads off a readable character.
fn tile_idx(c: char) -> (idx: usize)
    requires
        readable(c),
    ensures
        idx == tile_index(c),
{
    let code: u32 = c as u32;
    ((code % 256) - 97) as usize
}

/// The index of the first guess that got Green at `pos`, if any.
fn first_green_guess(history: &[(String, Pattern)], pos: usize) -> (found: Option<usize>)
    requires
        pos < 5,
    ensures
        match found {
            Some(j) => j < history@.len() && first_green(history@, pos as int, history@.len() as int)
                == Some(j as int),
            None => first_green(history@, pos as int, history@.len() as int) is None,
        },
{
    let mut j: usize = 0;
    while j < history.len()
        invariant
            pos < 5,
            j <= history@.len(),
            first_green(history@, pos as int, j as int) is None,
        decreases history.len() - j,
    {
        if matches!(history[j].1[pos], Feedback::Green) {
            proof {
                lemma_first_green_settles(history@, pos as int, j + 1, history@.len() as int);
            }
            return Some(j);
        }
        j = j + 1;
    }
    None
}

/// Once some guess got Green at `pos`, later guesses do not change the first one.
proof fn lemma_first_green_settles(history: Seq<(String, Pattern)>, pos: int, m: int, n: int)
    requires
        m <= n,
        first_green(history, pos, m) is Some,
    ensures
        first_green(history, pos, n) == first_green(history, pos, m),
    decreases n - m,
{
    if m < n {
        lemma_first_green_settles(history, pos, m, n - 1);
    }
}

/// Whether letter `l` got a Yellow tile at position `pos`.
fn yellow_here(history: &[(String, Pattern)], pos: usize, l: usize) -> (seen: bool)
    requires
        pos < 5,
        l < 26,
        encodable(history@),
    ensures
        seen == yellow_seen(history@, pos as int, l as int),
{
    let mut j: usize = 0;
    while j < history.len()
        invariant
            pos < 5,
            l < 26,
            encodable(history@),
            j <= history@.len(),
            forall|k: int|
                0 <= k < j ==> !(#[trigger] history@[k].1@[pos as int] == Feedback::Yellow && pos
                    < history@[k].0@.len() && tile_index(history@[k].0@[pos as int]) == l),
        decreases history.len() - j,
    {
        if matches!(history[j].1[pos], Feedback::Yellow) {
            let g = char_vec(history[j].0.as_str());
            if pos < g.len() {
                proof {
                    assert(readable(history@[j as int].0@[pos as int]));
                }
                if tile_idx(g[pos]) == l {
                    return true;
                }
            }
        }
        j = j + 1;
    }
    false
}

/// The minimum number of copies of letter `l` required by the history.
fn required_for_letter(history: &[(String, Pattern)], l: usize) -> (required: u32)
    requires
        l < 26,
        encodable(history@),
    ensures
        required == required_copies(history@, l as int, history@.len() as int),
{
    let mut required: u32 = 0;
    let mut j: usize = 0;
    while j < history.len()
        invariant
            l < 26,
            encodable(history@),
            j <= history@.len(),
            required == required_copies(history@, l as int, j as int),
            required <= 5,
        decreases history.len() - j,
    {
        let g = char_vec(history[j].0.as_str());
        let ghost gs = history@[j as int].0@;
        let ghost ps = history@[j as int].1@;
        let mut count: u32 = 0;
        let mut i: usize = 0;
        while i < 5
            invariant
                l < 26,
                encodable(history@),
                g@ == gs,
                gs == history@[j as int].0@,
                ps == history@[j as int].1@,
                j < history@.len(),
                i <= 5,
                count == count_below(i as int, shown_pred(gs, ps, l as int)),
            decreases 5 - i,
        {
            proof {
                lemma_count_at_most(i as int, shown_pred(gs, ps, l as int));
            }
            if i < g.len() && !matches!(history[j].1[i], Feedback::Grey) {
                proof {
                    assert(readable(history@[j as int].0@[i as int]));
                }
                if tile_idx(g[i]) == l {
                    count = count + 1;
                }
            }
            i = i + 1;
        }
        proof {
            lemma_count_at_most(5, shown_pred(gs, ps, l as int));
        }
        if count > required {
            required = count;
        }
        j = j + 1;
    }
    required
}

/// Whether letter `l` shows on a tile whose colour is (`grey`) or is not
/// (`!grey`) Grey.
fn tile_here(history: &[(String, Pattern)], l: usize, grey: bool) -> (seen: bool)
    requires
        l < 26,
        encodable(history@),
    ensures
        seen == tile_seen(history@, l as int, grey),
{
    let mut j: usize = 0;
    while j < history.len()
        invariant
            l < 26,
            encodable(history@),
            j <= history@.len(),
            forall|k: int, i: int|
                0 <= k < j && 0 <= i < 5 && i < history@[k].0@.len() ==> !(tile_index(
                    history@[k].0@[i],
                ) == l && (#[trigger] history@[k].1@[i] == Feedback::Grey) == grey),
        decreases history.len() - j,
    {
        let g = char_vec(history[j].0.as_str());
        let mut i: usize = 0;
        while i < 5 && i < g.len()
            invariant
                l < 26,
                encodable(history@),
                g@ == history@[j as int].0@,
                j < history@.len(),
                i <= 5,
                forall|k: int, m: int|
                    0 <= k < j && 0 <= m < 5 && m < history@[k].0@.len() ==> !(tile_index(
                        history@[k].0@[m],
                    ) == l && (#[trigger] history@[k].1@[m] == Feedback::Grey) == grey),
                forall|m: int|
                    0 <= m < i && m < g@.len() ==> !(tile_index(g@[m]) == l && (
                    #[trigger] history@[j as int].1@[m] == Feedback::Grey) == grey),
            decreases 5 - i,
        {
            let is_grey = matches!(history[j].1[i], Feedback::Grey);
            proof {
                assert(readable(history@[j as int].0@[i as int]));
            }
            if is_grey == grey && tile_idx(g[i]) == l {
                return true;
            }
            i = i + 1;
        }
        j = j + 1;
    }
    false
}

/// Whether the encoder reads this history: every guess has at most five
/// characters, all readable, and the first guess with a Green at each
/// position has a character there.
pub fn is_encodable(history: &[(String, Pattern)]) -> (ok: bool)
    ensures
        ok == encodable(history@),
{
    let mut j: usize = 0;
    while j < history.len()
        invariant
            j <= history@.len(),
            forall|k: int| 0 <= k < j ==> #[trigger] history@[k].0@.len() <= 5,
            forall|k: int, i: int|
                0 <= k < j && 0 <= i < history@[k].0@.len() ==> readable(
                    #[trigger] history@[k].0@[i],
                ),
        decreases history.len() - j,
    {
        let g = char_vec(history[j].0.as_str());
        if g.len() > 5 {
            return false;
        }
        let mut i: usize = 0;
        while i < g.len()
            invariant
                g@ == history@[j as int].0@,
                j < history@.len(),
                i <= g@.len(),
                forall|m: int| 0 <= m < i ==> readable(#[trigger] g@[m]),
            decreases g.len() - i,
        {
            let code: u32 = g[i] as u32;
            if code % 256 < 97 {
                return false;
            }
            i = i + 1;
        }
        j = j + 1;
    }
    let mut pos: usize = 0;
    while pos < 5
        invariant
            pos <= 5,
            forall|k: int| 0 <= k < history@.len() ==> #[trigger] history@[k].0@.len() <= 5,
            forall|k: int, i: int|
                0 <= k < history@.len() && 0 <= i < history@[k].0@.len() ==> readable(
                    #[trigger] history@[k].0@[i],
                ),
            forall|p: int|
                0 <= p < pos ==> (#[trigger] first_green(history@, p, history@.len() as int) matches Some(
                    k,
                ) ==> p < history@[k].0@.len()),
        decreases 5 - pos,
    {
        if let Some(k) = first_green_guess(history, pos) {
            let g = char_vec(history[k].0.as_str());
            if pos >= g.len() {
                return false;
            }
        }
        pos = pos + 1;
    }
    true
}

/// Encode the current game state (from history) as 312 integer features; see
/// `spec_state_feature` for the layout.
pub fn state_features(history: &[(String, Pattern)]) -> (features: Vec<u32>)
    requires
        encodable(history@),
    ensures
        features@.len() == STATE_DIM,
        forall|idx: int|
            0 <= idx < STATE_DIM ==> #[trigger] features@[idx] as int == spec_state_feature(
                history@,
                idx,
            ),
{
    let mut features: Vec<u32> = Vec::new();
    if history.len() == 0 {
        let mut k: usize = 0;
        while k < STATE_DIM
            invariant
                history@.len() == 0,
                k <= STATE_DIM,
                features@.len() == k,
                forall|idx: int|
                    0 <= idx < k ==> #[trigger] features@[idx] as int == spec_state_feature(
                        history@,
                        idx,
                    ),
            decreases STATE_DIM - k,
        {
            proof {
                lemma_empty_history_features(history@, k as int);
            }
            features.push(0);
            k = k + 1;
        }
        return features;
    }
    // Green known positions: 5 x 26.

    let mut pos: usize = 0;
    while pos < 5
        invariant
            encodable(history@),
            pos <= 5,
            features@.len() == pos * 26,
            forall|idx: int|
                0 <= idx < features@.len() ==> #[trigger] features@[idx] as int
                    == spec_state_feature(history@, idx),
        decreases 5 - pos,
    {
        let first = first_green_guess(history, pos);
        let mut known: Option<usize> = None;
        if let Some(j) = first {
            let g = char_vec(history[j].0.as_str());
            proof {
                assert(first_green(history@, pos as int, history@.len() as int) == Some(j as int));
                assert(readable(history@[j as int].0@[pos as int]));
            }
            known = Some(tile_idx(g[pos]));
        }
        let mut l: usize = 0;
        while l < 26
            invariant
                encodable(history@),
                pos < 5,
                l <= 26,
                match known {
                    Some(t) => first_green(history@, pos as int, history@.len() as int) matches Some(
                        j,
                    ) && tile_index(history@[j].0@[pos as int]) == t,
                    None => first_green(history@, pos as int, history@.len() as int) is None,
                },
                features@.len() == pos * 26 + l,
                forall|idx: int|
                    0 <= idx < features@.len() ==> #[trigger] features@[idx] as int
                        == spec_state_feature(history@, idx),
            decreases 26 - l,
        {
            let mut on: u32 = 0;
            if let Some(t) = known {
                if t == l {
                    on = 1;
                }
            }
            proof {
                let idx = pos * 26 + l;
                assert(idx / 26 == pos && idx % 26 == l) by (nonlinear_arith)
                    requires
                        idx == pos * 26 + l,
                        l < 26,
                ;
            }
            features.push(on);
            l = l + 1;
        }
        pos = pos + 1;
    }
    // Yellow seen at positions: 5 x 26.

    let mut pos: usize = 0;
    while pos < 5
        invariant
            encodable(history@),
            pos <= 5,
            features@.len() == 130 + pos * 26,
            forall|idx: int|
                0 <= idx < features@.len() ==> #[trigger] features@[idx] as int
                    == spec_state_feature(history@, idx),
        decreases 5 - pos,
    {
        let mut l: usize = 0;
        while l < 26
            invariant
                encodable(history@),
                pos < 5,
                l <= 26,
                features@.len() == 130 + pos * 26 + l,
                forall|idx: int|
                    0 <= idx < features@.len() ==> #[trigger] features@[idx] as int
                        == spec_state_feature(history@, idx),
            decreases 26 - l,
        {
            let seen = yellow_here(history, pos, l);
            proof {
                let idx = 130 + pos * 26 + l;
                assert((idx - 130) / 26 == pos && (idx - 130) % 26 == l) by (nonlinear_arith)
                    requires
                        idx == 130 + pos * 26 + l,
                        l < 26,
                ;
            }
            features.push(if seen {
                1
            } else {
                0
            });
            l = l + 1;
        }
        pos = pos + 1;
    }
    // Minimum required copies per letter: 26.

    let mut l: usize = 0;
    while l < 26
        invariant
            encodable(history@),
            l <= 26,
            features@.len() == 260 + l,
            forall|idx: int|
                0 <= idx < features@.len() ==> #[trigger] features@[idx] as int
                    == spec_state_feature(history@, idx),
        decreases 26 - l,
    {
        let required = required_for_letter(history, l);
        features.push(required);
        l = l + 1;
    }
    // Letters seen only on Grey tiles: 26.

    let mut l: usize = 0;
    while l < 26
        invariant
            encodable(history@),
            l <= 26,
            features@.len() == 286 + l,
            forall|idx: int|
                0 <= idx < features@.len() ==> #[trigger] features@[idx] as int
                    == spec_state_feature(history@, idx),
        decreases 26 - l,
    {
        let grey = tile_here(history, l, true);
        let coloured = tile_here(history, l, false);
        features.push(if grey && !coloured {
            1
        } else {
            0
        });
        l = l + 1;
    }
    features
}

/// The letter with index `l` is lowercase, with code `l + 97`.
proof fn lemma_letter_value(l: int)
    requires
        0 <= l < 26,
    ensures
        is_lower(letter(l)),
        letter(l) as int == l + 97,
{
}

/// With no history every state feature is 0.
proof fn lemma_empty_history_features(history: Seq<(String, Pattern)>, idx: int)
    requires
        history.len() == 0,
    ensures
        spec_state_feature(history, idx) == 0,
{
}

/// One-hot features of a word: `[pos * 26 + l]` is 1 when the word has letter
/// `l` at position `pos` (for the first five positions), else 0.
pub open spec fn spec_word_feature(word: Seq<char>, idx: int) -> int {
    let pos = idx / 26;
    let l = idx % 26;
    if pos < word.len() && word[pos] == letter(l) {
        1
    } else {
        0
    }
}

/// Encode a candidate word as 130 one-hot features; see `spec_word_feature`.
pub fn word_features(word: &str) -> (features: Vec<u32>)
    ensures
        features@.len() == WORD_DIM,
        forall|idx: int|
            0 <= idx < WORD_DIM ==> #[trigger] features@[idx] as int == spec_word_feature(
                word@,
                idx,
            ),
{
    let w = char_vec(word);
    let mut features: Vec<u32> = Vec::new();
    let mut pos: usize = 0;
    while pos < 5
        invariant
            w@ == word@,
            pos <= 5,
            features@.len() == pos * 26,
            forall|idx: int|
                0 <= idx < features@.len() ==> #[trigger] features@[idx] as int
                    == spec_word_feature(word@, idx),
        decreases 5 - pos,
    {
        let mut l: usize = 0;
        while l < 26
            invariant
                w@ == word@,
                pos < 5,
                l <= 26,
                features@.len() == pos * 26 + l,
                forall|idx: int|
                    0 <= idx < features@.len() ==> #[trigger] features@[idx] as int
                        == spec_word_feature(word@, idx),
            decreases 26 - l,
        {
            let mut on: u32 = 0;
            if pos < w.len() {
                let c = w[pos];
                if 'a' <= c && c <= 'z' {
                    if letter_idx(c) == l {
                        on = 1;
                    }
                }
            }
            proof {
                lemma_letter_value(l as int);
                let idx = pos * 26 + l;
                assert(idx / 26 == pos && idx % 26 == l) by (nonlinear_arith)
                    requires
                        idx == pos * 26 + l,
                        l < 26,
                ;
            }
            features.push(on);
            l = l + 1;
        }
        pos = pos + 1;
    }
    features
}

} // verus!

verus! {

/// The position and letter of feature `base + pos * 26 + l` decode back.
proof fn lemma_slot(base: int, pos: int, l: int)
    requires
        0 <= pos < 5,
        0 <= l < 26,
    ensures
        (base + pos * 26 + l - base) / 26 == pos,
        (base + pos * 26 + l - base) % 26 == l,
        (pos * 26 + l) / 26 == pos,
        (pos * 26 + l) % 26 == l,
{
    assert((pos * 26 + l) / 26 == pos && (pos * 26 + l) % 26 == l) by (nonlinear_arith)
        requires
            0 <= pos < 5,
            0 <= l < 26,
    ;
    assert(base + pos * 26 + l - base == pos * 26 + l);
}

/// A lowercase letter is the letter of its alphabet index.
proof fn lemma_lower_letter(c: char)
    requires
        is_lower(c),
    ensures
        letter(c as int - 97) == c,
        0 <= c as int - 97 < 26,
{
}

/// Word features mark, at each of the first five positions, exactly the
/// lowercase letter the word has there, whatever the other positions hold;
/// so a five-letter lowercase word has one feature set per position.
pub proof fn lemma_word_features(w: Seq<char>, pos: int, l: int)
    requires
        0 <= pos < 5,
        0 <= l < 26,
    ensures
        spec_word_feature(w, pos * 26 + l) == 1 <==> pos < w.len() && w[pos] == letter(l),
        spec_word_feature(w, pos * 26 + l) == 0 || spec_word_feature(w, pos * 26 + l) == 1,
        pos < w.len() && is_lower(w[pos]) ==> spec_word_feature(w, pos * 26 + (w[pos] as int - 97))
            == 1,
{
    lemma_slot(0, pos, l);
    if pos < w.len() && is_lower(w[pos]) {
        lemma_lower_letter(w[pos]);
        lemma_slot(0, pos, w[pos] as int - 97);
    }
}

/// Yellow features: letter `l` is marked at `pos` exactly when some guess of
/// the history, at any turn, got a Yellow tile at `pos` showing `l`; so a mark
/// stays when the history grows.
pub proof fn lemma_yellow_features(
    history: Seq<(String, Pattern)>,
    pos: int,
    l: int,
    next: (String, Pattern),
)
    requires
        0 <= pos < 5,
        0 <= l < 26,
    ensures
        spec_state_feature(history, 130 + pos * 26 + l) == 1 <==> exists|j: int|
            0 <= j < history.len() && #[trigger] history[j].1@[pos] == Feedback::Yellow && pos
                < history[j].0@.len() && tile_index(history[j].0@[pos]) == l,
        spec_state_feature(history, 130 + pos * 26 + l) == 0 || spec_state_feature(
            history,
            130 + pos * 26 + l,
        ) == 1,
        spec_state_feature(history, 130 + pos * 26 + l) == 1 ==> spec_state_feature(
            history.push(next),
            130 + pos * 26 + l,
        ) == 1,
{
    lemma_slot(130, pos, l);
    let grown = history.push(next);
    if yellow_seen(history, pos, l) {
        let j = choose|j: int|
            0 <= j < history.len() && #[trigger] history[j].1@[pos] == Feedback::Yellow && pos
                < history[j].0@.len() && tile_index(history[j].0@[pos]) == l;
        assert(grown[j] == history[j]);
        assert(yellow_seen(grown, pos, l));
    }
}

/// Eliminated-letter features: letter `l` is marked exactly when some guess
/// shows it on a Grey tile and no guess shows it on a Green or Yellow tile; in
/// particular a letter that any guess shows on a Green or Yellow tile is
/// never marked.
pub proof fn lemma_eliminated_features(history: Seq<(String, Pattern)>, l: int)
    requires
        0 <= l < 26,
    ensures
        spec_state_feature(history, 286 + l) == 1 <==> (exists|j: int, i: int|
            0 <= j < history.len() && 0 <= i < 5 && i < history[j].0@.len()
                && #[trigger] history[j].1@[i] == Feedback::Grey && tile_index(history[j].0@[i])
                == l) && !(exists|j: int, i: int|
            0 <= j < history.len() && 0 <= i < 5 && i < history[j].0@.len() && (
            #[trigger] history[j].1@[i]) != Feedback::Grey && tile_index(history[j].0@[i]) == l),
        spec_state_feature(history, 286 + l) == 0 || spec_state_feature(history, 286 + l) == 1,
        forall|j: int, i: int|
            0 <= j < history.len() && 0 <= i < 5 && i < history[j].0@.len() && (
            #[trigger] history[j].1@[i]) != Feedback::Grey && tile_index(history[j].0@[i]) == l
                ==> spec_state_feature(history, 286 + l) == 0,
{
    assert forall|j: int, i: int|
        0 <= j < history.len() && 0 <= i < 5 && i < history[j].0@.len() && (
        #[trigger] history[j].1@[i]) != Feedback::Grey && tile_index(history[j].0@[i])
            == l implies spec_state_feature(history, 286 + l) == 0 by {
        assert(tile_seen(history, l, false));
    }
}


/// `first_green` picks the earliest guess with a Green tile at `pos`, and
/// finds none only when no guess has one.
proof fn lemma_first_green_is_first(history: Seq<(String, Pattern)>, pos: int, n: int)
    requires
        0 <= n <= history.len(),
    ensures
        match first_green(history, pos, n) {
            Some(j) => 0 <= j < n && history[j].1@[pos] == Feedback::Green && forall|k: int|
                0 <= k < j ==> (#[trigger] history[k].1@[pos]) != Feedback::Green,
            None => forall|k: int| 0 <= k < n ==> (#[trigger] history[k].1@[pos]) != Feedback::Green,
        },
    decreases n,
{
    if n > 0 {
        lemma_first_green_is_first(history, pos, n - 1);
    }
}

/// Growing the history leaves `first_green` over its old guesses unchanged.
proof fn lemma_first_green_prefix(
    history: Seq<(String, Pattern)>,
    next: (String, Pattern),
    pos: int,
    n: int,
)
    requires
        0 <= n <= history.len(),
    ensures
        first_green(history.push(next), pos, n) == first_green(history, pos, n),
    decreases n,
{
    if n > 0 {
        lemma_first_green_prefix(history, next, pos, n - 1);
        assert(history.push(next)[n - 1] == history[n - 1]);
    }
}

/// Green features: at each position at most one letter is marked; a marked
/// letter was shown on a Green tile at that position; when every Green tile at
/// the position shows the same letter, that letter is marked; with no Green
/// tile there, nothing is; and a mark stays when the history grows.
pub proof fn lemma_green_features(
    history: Seq<(String, Pattern)>,
    pos: int,
    l: int,
    next: (String, Pattern),
)
    requires
        0 <= pos < 5,
        0 <= l < 26,
        encodable(history),
    ensures
        spec_state_feature(history, pos * 26 + l) == 0 || spec_state_feature(history, pos * 26 + l)
            == 1,
        spec_state_feature(history, pos * 26 + l) == 1 ==> exists|j: int|
            0 <= j < history.len() && #[trigger] history[j].1@[pos] == Feedback::Green && pos
                < history[j].0@.len() && tile_index(history[j].0@[pos]) == l,
        forall|m: int|
            0 <= m < 26 && m != l && spec_state_feature(history, pos * 26 + l) == 1
                ==> #[trigger] spec_state_feature(history, pos * 26 + m) == 0,
        (exists|j: int| 0 <= j < history.len() && #[trigger] history[j].1@[pos] == Feedback::Green)
            && (forall|j: int|
            0 <= j < history.len() && #[trigger] history[j].1@[pos] == Feedback::Green ==> pos
                < history[j].0@.len() && tile_index(history[j].0@[pos]) == l)
            ==> spec_state_feature(history, pos * 26 + l) == 1,
        (forall|j: int| 0 <= j < history.len() ==> (#[trigger] history[j].1@[pos]) != Feedback::Green)
            ==> spec_state_feature(history, pos * 26 + l) == 0,
        spec_state_feature(history, pos * 26 + l) == 1 ==> spec_state_feature(
            history.push(next),
            pos * 26 + l,
        ) == 1,
{
    let n = history.len() as int;
    lemma_slot(0, pos, l);
    lemma_first_green_is_first(history, pos, n);
    lemma_first_green_prefix(history, next, pos, n);
    lemma_first_green_is_first(history.push(next), pos, n + 1);
    assert(first_green(history, pos, n) matches Some(j) ==> pos < history[j].0@.len());
    assert forall|m: int|
        0 <= m < 26 && m != l && spec_state_feature(history, pos * 26 + l) == 1
            implies #[trigger] spec_state_feature(history, pos * 26 + m) == 0 by {
        lemma_slot(0, pos, m);
    }
    if first_green(history, pos, n) is Some {
        let j = first_green(history, pos, n)->Some_0;
        assert(history.push(next)[j] == history[j]);
    }
}

/// Tiles of guess `g` under pattern `p` that are Green or Yellow and show
/// letter index `l`.
pub open spec fn coloured_tiles(g: Seq<char>, p: Seq<Feedback>, l: int) -> nat {
    count_below(5, |i: int| i < g.len() && p[i] != Feedback::Grey && tile_index(g[i]) == l)
}

/// `required_copies` over the first `n` guesses is the largest number of
/// Green and Yellow tiles for the letter in any one of them.
proof fn lemma_required_copies_max(history: Seq<(String, Pattern)>, l: int, n: int)
    requires
        0 <= n <= history.len(),
    ensures
        forall|j: int|
            0 <= j < n ==> coloured_tiles(#[trigger] history[j].0@, history[j].1@, l)
                <= required_copies(history, l, n),
        required_copies(history, l, n) == 0 || exists|j: int|
            0 <= j < n && coloured_tiles(#[trigger] history[j].0@, history[j].1@, l)
                == required_copies(history, l, n),
        required_copies(history, l, n) <= 5,
    decreases n,
{
    if n > 0 {
        lemma_required_copies_max(history, l, n - 1);
        let g = history[n - 1].0@;
        let p = history[n - 1].1@;
        lemma_count_ext(
            5,
            shown_pred(g, p, l),
            |i: int| i < g.len() && p[i] != Feedback::Grey && tile_index(g[i]) == l,
        );
        lemma_count_at_most(5, shown_pred(g, p, l));
        assert(coloured_tiles(history[n - 1].0@, history[n - 1].1@, l) == count_below(
            5,
            shown_pred(g, p, l),
        ));
    }
}

/// Growing the history leaves `required_copies` over its old guesses unchanged.
proof fn lemma_required_copies_prefix(
    history: Seq<(String, Pattern)>,
    next: (String, Pattern),
    l: int,
    n: int,
)
    requires
        0 <= n <= history.len(),
    ensures
        required_copies(history.push(next), l, n) == required_copies(history, l, n),
    decreases n,
{
    if n > 0 {
        lemma_required_copies_prefix(history, next, l, n - 1);
        assert(history.push(next)[n - 1] == history[n - 1]);
    }
}

/// Required-copies features: the count for letter `l` is at least the Green
/// and Yellow tiles showing `l` in every single guess, equals that number for
/// some guess (or is 0), is at most 5, and never drops when the history grows.
pub proof fn lemma_required_features(
    history: Seq<(String, Pattern)>,
    l: int,
    next: (String, Pattern),
)
    requires
        0 <= l < 26,
    ensures
        forall|j: int|
            0 <= j < history.len() ==> coloured_tiles(#[trigger] history[j].0@, history[j].1@, l)
                <= spec_state_feature(history, 260 + l),
        spec_state_feature(history, 260 + l) == 0 || exists|j: int|
            0 <= j < history.len() && coloured_tiles(#[trigger] history[j].0@, history[j].1@, l)
                == spec_state_feature(history, 260 + l),
        0 <= spec_state_feature(history, 260 + l) <= 5,
        spec_state_feature(history, 260 + l) <= spec_state_feature(history.push(next), 260 + l),
{
    let n = history.len() as int;
    lemma_required_copies_max(history, l, n);
    lemma_required_copies_prefix(history, next, l, n);
    assert(history.push(next).len() == n + 1);
}

} // verus!
