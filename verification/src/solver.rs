use vstd::prelude::*;

use std::collections::HashMap;

use rand::seq::SliceRandom;

use crate::counts::{count_below, lemma_count_at_most, lemma_count_none};
use crate::feedback::{
    all_green, evaluate, key_prefix, pattern_key, pow3_bound, spec_all_green, spec_evaluate,
    spec_pattern_key, Feedback, Pattern,
};
use crate::wordlist::{
    filter, lemma_filter_empty_history, lemma_filter_keeps_solution, lemma_filter_refine,
    spec_filter,
};

verus! {

/// Solver that picks the word with maximum entropy (information gain).
pub struct EntropySolver;

/// Baseline solver that picks a random word from remaining candidates.
pub struct RandomSolver;

/// `SliceRandom::choose` of `rand` with the thread-local generator: one element
/// of `words`, picked at random, or `None` when `words` is empty. Which element
/// comes back is left unsaid: it rests on the generator. The generator panics
/// only when the operating system cannot seed it, which no argument decides.
#[verifier::external_body]
fn choose_word(words: &[String]) -> (chosen: Option<&String>)
    ensures
        chosen is None <==> words@.len() == 0,
        chosen matches Some(w) ==> words@.contains(*w),
{
    words.choose(&mut rand::thread_rng())
}

impl RandomSolver {
    /// Pick a random word from the remaining candidates (empty when there are none).
    pub fn next_guess(
        &self,
        remaining: &[String],
        all_words: &[String],
        history: &[(String, Pattern)],
    ) -> (guess: String)
        ensures
            remaining@.len() == 0 ==> guess@ == Seq::<char>::empty(),
            remaining@.len() > 0 ==> remaining@.contains(guess),
    {
        if remaining.len() == 0 {
            return String::new();
        }
        match choose_word(remaining) {
            Some(w) => w.clone(),
            None => String::new(),
        }
    }
}

/// `keys[i]` is the largest key, and no earlier key is as large.
pub open spec fn is_first_max(keys: Seq<u64>, i: int) -> bool {
    &&& 0 <= i < keys.len()
    &&& forall|k: int| 0 <= k < i ==> #[trigger] keys[k] < keys[i]
    &&& forall|k: int| 0 <= k < keys.len() ==> #[trigger] keys[k] <= keys[i]
}

/// The first candidate with the largest key, provided that key is above
/// `floor`; `fallback` when no key is above `floor`.
pub fn pick_best(candidates: &[String], fallback: &String, keys: &[u64], floor: u64) -> (best:
    String)
    requires
        keys@.len() == candidates@.len(),
    ensures
        (forall|i: int| 0 <= i < keys@.len() ==> #[trigger] keys@[i] <= floor) ==> best
            == *fallback,
        (exists|i: int| 0 <= i < keys@.len() && #[trigger] keys@[i] > floor) ==> exists|i: int|
            is_first_max(keys@, i) && best == #[trigger] candidates@[i],
{
    let mut best_word = fallback.clone();
    let mut best_key: u64 = floor;
    let mut best: Option<usize> = None;
    let mut i: usize = 0;
    while i < candidates.len()
        invariant
            keys@.len() == candidates@.len(),
            i <= candidates.len(),
            best is None ==> best_word == *fallback && best_key == floor && forall|k: int|
                0 <= k < i ==> #[trigger] keys@[k] <= floor,
            best matches Some(b) ==> b < i && best_word == candidates@[b as int] && best_key
                == keys@[b as int] && keys@[b as int] > floor && (forall|k: int|
                0 <= k < b ==> #[trigger] keys@[k] < keys@[b as int]) && (forall|k: int|
                0 <= k < i ==> #[trigger] keys@[k] <= keys@[b as int]),
        decreases candidates.len() - i,
    {
        if keys[i] > best_key {
            best_key = keys[i];
            best = Some(i);
            best_word = candidates[i].clone();
        }
        i = i + 1;
    }
    proof {
        if best is Some {
            let b = best->0 as int;
            assert(is_first_max(keys@, b));
        }
    }
    best_word
}

impl EntropySolver {
    /// The guess when no scoring is needed: the first word of the full list
    /// (or an empty string) when no candidate remains, the first candidate
    /// when at most two remain, and `None` otherwise.
    pub fn shortcut(&self, remaining: &[String], all_words: &[String]) -> (guess: Option<String>)
        ensures
            remaining@.len() == 0 && all_words@.len() == 0 ==> (guess matches Some(g) && g@
                == Seq::<char>::empty()),
            remaining@.len() == 0 && all_words@.len() > 0 ==> guess == Some(all_words@[0]),
            1 <= remaining@.len() <= 2 ==> guess == Some(remaining@[0]),
            remaining@.len() > 2 ==> guess is None,
    {
        if remaining.len() == 0 {
            if all_words.len() == 0 {
                return Some(String::new());
            }
            return Some(all_words[0].clone());
        }
        if remaining.len() <= 2 {
            return Some(remaining[0].clone());
        }
        None
    }

    /// The word of `all_words` with the largest entropy key (the first on
    /// ties), or the first remaining candidate when no key is above `floor`.
    pub fn pick_guess(&self, remaining: &[String], all_words: &[String], keys: &[u64], floor: u64)
        -> (guess: String)
        requires
            remaining@.len() > 0,
            keys@.len() == all_words@.len(),
        ensures
            (forall|i: int| 0 <= i < keys@.len() ==> #[trigger] keys@[i] <= floor) ==> guess
                == remaining@[0],
            (exists|i: int| 0 <= i < keys@.len() && #[trigger] keys@[i] > floor) ==> exists|i: int|
                is_first_max(keys@, i) && guess == #[trigger] all_words@[i],
    {
        pick_best(all_words, &remaining[0], keys, floor)
    }
}

/// The guess of a solver that only looks at the remaining candidates when no
/// scoring is needed: empty when none remain, the first candidate when at most
/// two remain, and `None` otherwise.
pub fn shortlist_guess(remaining: &[String]) -> (guess: Option<String>)
    ensures
        remaining@.len() == 0 ==> (guess matches Some(g) && g@ == Seq::<char>::empty()),
        1 <= remaining@.len() <= 2 ==> guess == Some(remaining@[0]),
        remaining@.len() > 2 ==> guess is None,
{
    if remaining.len() == 0 {
        return Some(String::new());
    }
    if remaining.len() <= 2 {
        return Some(remaining[0].clone());
    }
    None
}

/// Solutions (among the first `n` of `solutions`) against which `guess` gets
/// the pattern with key `key`.
pub open spec fn bucket_pred(guess: Seq<char>, solutions: Seq<Seq<char>>, key: int) -> spec_fn(
    int,
) -> bool {
    |j: int| spec_pattern_key(spec_evaluate(guess, solutions[j])) == key
}

/// Sum of the first `m` entries of `sizes`.
pub open spec fn sum_first(sizes: Seq<int>, m: int) -> int
    decreases m,
{
    if m <= 0 {
        0
    } else {
        sum_first(sizes, m - 1) + sizes[m - 1]
    }
}

/// How many of the first `n` solutions give the pattern with key `key`.
pub open spec fn bucket_size(guess: Seq<char>, solutions: Seq<Seq<char>>, key: int, n: int) -> nat {
    count_below(n, bucket_pred(guess, solutions, key))
}

/// The sizes of the 243 pattern groups of the first `n` solutions.
pub open spec fn bucket_sizes(guess: Seq<char>, solutions: Seq<Seq<char>>, n: int) -> Seq<int> {
    Seq::new(243, |key: int| bucket_size(guess, solutions, key, n) as int)
}

proof fn lemma_sum_bump(sizes: Seq<int>, key: int, m: int)
    requires
        0 <= key < sizes.len(),
        0 <= m <= sizes.len(),
    ensures
        sum_first(sizes.update(key, sizes[key] + 1), m) == sum_first(sizes, m) + if key < m {
            1int
        } else {
            0int
        },
    decreases m,
{
    if m > 0 {
        lemma_sum_bump(sizes, key, m - 1);
    }
}

proof fn lemma_sum_zero(sizes: Seq<int>, m: int)
    requires
        0 <= m <= sizes.len(),
        forall|k: int| 0 <= k < sizes.len() ==> sizes[k] == 0,
    ensures
        sum_first(sizes, m) == 0,
    decreases m,
{
    if m > 0 {
        lemma_sum_zero(sizes, m - 1);
    }
}

/// A key spelled by the first `n` colours is below `3` to the power `n`.
proof fn lemma_key_prefix_bound(p: Seq<Feedback>, n: int)
    requires
        0 <= n <= 5,
    ensures
        key_prefix(p, n) < pow3_bound(n),
    decreases n,
{
    if n > 0 {
        lemma_key_prefix_bound(p, n - 1);
    }
}

/// Every solution falls in exactly one of the 243 pattern groups.
pub proof fn lemma_buckets_partition(guess: Seq<char>, solutions: Seq<Seq<char>>, n: int)
    requires
        0 <= n <= solutions.len(),
    ensures
        sum_first(bucket_sizes(guess, solutions, n), 243) == n,
    decreases n,
{
    if n == 0 {
        lemma_sum_zero(bucket_sizes(guess, solutions, 0), 243);
    } else {
        lemma_buckets_partition(guess, solutions, n - 1);
        let before = bucket_sizes(guess, solutions, n - 1);
        let key = spec_pattern_key(spec_evaluate(guess, solutions[n - 1])) as int;
        lemma_key_prefix_bound(spec_evaluate(guess, solutions[n - 1]), 5);
        assert(bucket_sizes(guess, solutions, n) =~= before.update(key, before[key] + 1));
        lemma_sum_bump(before, key, 243);
    }
}

/// How many of the remaining solutions give each feedback pattern for `guess`,
/// by pattern key; a key appears exactly when some solution gives it. Every
/// solution falls in exactly one of the 243 groups, so the group sizes add up to
/// the number of solutions.
pub fn pattern_counts(guess: &str, remaining: &[String]) -> (counts: HashMap<u8, u32>)
    requires
        guess@.len() == 5,
        forall|j: int| 0 <= j < remaining@.len() ==> (#[trigger] remaining@[j])@.len() == 5,
        remaining@.len() <= u32::MAX,
    ensures
        forall|k: u8|
            #[trigger] counts@.contains_key(k) <==> bucket_size(
                guess@,
                remaining.deep_view(),
                k as int,
                remaining@.len() as int,
            ) > 0,
        forall|k: u8|
            #[trigger] counts@.contains_key(k) ==> counts@[k] == bucket_size(
                guess@,
                remaining.deep_view(),
                k as int,
                remaining@.len() as int,
            ) && k < 243,
        sum_first(bucket_sizes(guess@, remaining.deep_view(), remaining@.len() as int), 243)
            == remaining@.len(),
{
    broadcast use vstd::std_specs::hash::group_hash_axioms;

    let ghost sols = remaining.deep_view();
    let mut counts: HashMap<u8, u32> = HashMap::new();
    let mut j: usize = 0;
    while j < remaining.len()
        invariant
            guess@.len() == 5,
            forall|m: int| 0 <= m < remaining@.len() ==> (#[trigger] remaining@[m])@.len() == 5,
            remaining@.len() <= u32::MAX,
            sols == remaining.deep_view(),
            j <= remaining@.len(),
            forall|k: u8|
                #[trigger] counts@.contains_key(k) <==> bucket_size(
                    guess@,
                    sols,
                    k as int,
                    j as int,
                ) > 0,
            forall|k: u8|
                #[trigger] counts@.contains_key(k) ==> counts@[k] == bucket_size(
                    guess@,
                    sols,
                    k as int,
                    j as int,
                ),
        decreases remaining.len() - j,
    {
        let pattern = evaluate(guess, remaining[j].as_str());
        let key = pattern_key(&pattern);
        proof {
            assert(sols[j as int] == remaining@[j as int]@);
            lemma_count_at_most(j as int, bucket_pred(guess@, sols, key as int));
        }
        let before: u32 = match counts.get(&key) {
            Some(c) => *c,
            None => 0,
        };
        counts.insert(key, before + 1);
        proof {
            assert forall|k: u8| #[trigger]
                counts@.contains_key(k) <==> bucket_size(guess@, sols, k as int, j + 1) > 0 by {
                assert(bucket_size(guess@, sols, k as int, j + 1) == bucket_size(
                    guess@,
                    sols,
                    k as int,
                    j as int,
                ) + if k == key {
                    1nat
                } else {
                    0nat
                });
            }
            assert forall|k: u8| #[trigger]
                counts@.contains_key(k) implies counts@[k] == bucket_size(
                guess@,
                sols,
                k as int,
                j + 1,
            ) by {
                assert(bucket_size(guess@, sols, k as int, j + 1) == bucket_size(
                    guess@,
                    sols,
                    k as int,
                    j as int,
                ) + if k == key {
                    1nat
                } else {
                    0nat
                });
            }
        }
        j = j + 1;
    }
    proof {
        lemma_buckets_partition(guess@, sols, remaining@.len() as int);
        assert forall|k: u8| #[trigger] counts@.contains_key(k) implies k < 243 by {
            if k >= 243 {
                assert forall|m: int| 0 <= m < remaining@.len() implies !#[trigger] bucket_pred(
                    guess@,
                    sols,
                    k as int,
                )(m) by {
                    lemma_key_prefix_bound(spec_evaluate(guess@, sols[m]), 5);
                }
                lemma_count_none(remaining@.len() as int, bucket_pred(guess@, sols, k as int));
            }
        }
    }
    counts
}

/// The state of a game played by a solver.
pub struct PlayState {
    /// Candidates still consistent with the feedback so far.
    pub remaining: Vec<String>,
    /// The (guess, pattern) pairs so far.
    pub history: Vec<(String, Pattern)>,
    /// Guesses made so far.
    pub turn: usize,
    /// Guesses allowed.
    pub max_guesses: usize,
}

/// What a game played by a solver needs next.
pub enum PlayAction {
    /// Ask the solver for the next guess.
    Guess,
    /// The game is over: the number of guesses if solved, `None` if not.
    Finish(Option<usize>),
}

/// Start a game played by a solver over the full word list.
pub fn start_play(all_words: &[String], max_guesses: usize) -> (start: (PlayState, PlayAction))
    ensures
        start.0.remaining@ == all_words@,
        start.0.remaining.deep_view() == spec_filter(all_words.deep_view(), start.0.history@),
        start.0.history@.len() == 0,
        start.0.turn == 0,
        start.0.max_guesses == max_guesses,
        start.1 == if max_guesses == 0 {
            PlayAction::Finish(None)
        } else {
            PlayAction::Guess
        },
{
    let mut remaining: Vec<String> = Vec::new();
    let mut i: usize = 0;
    while i < all_words.len()
        invariant
            i <= all_words@.len(),
            remaining@ == all_words@.take(i as int),
        decreases all_words.len() - i,
    {
        remaining.push(all_words[i].clone());
        i = i + 1;
    }
    assert(all_words@.take(all_words@.len() as int) =~= all_words@);
    let state = PlayState { remaining, history: Vec::new(), turn: 0, max_guesses };
    proof {
        lemma_filter_empty_history(all_words.deep_view());
        assert(state.history@ =~= Seq::<(String, Pattern)>::empty());
        assert(state.remaining.deep_view() =~= all_words.deep_view());
    }
    let action = if max_guesses == 0 {
        PlayAction::Finish(None)
    } else {
        PlayAction::Guess
    };
    (state, action)
}

/// Record the solver's guess: evaluate it against the solution and add it to
/// the history; the game is solved on five Green tiles, otherwise the
/// candidates are filtered by the history and the game goes on until the guess
/// limit. When every earlier guess was evaluated against this solution, a
/// solution that was still a candidate remains one.
pub fn play_turn(state: &mut PlayState, guess: String, solution: &str) -> (action: PlayAction)
    requires
        old(state).turn < old(state).max_guesses,
        guess@.len() == 5,
        solution@.len() == 5,
    ensures
        final(state).max_guesses == old(state).max_guesses,
        final(state).turn == old(state).turn + 1,
        final(state).history@.len() == old(state).history@.len() + 1,
        final(state).history@.drop_last() == old(state).history@,
        final(state).history@.last().0 == guess,
        final(state).history@.last().1@ == spec_evaluate(guess@, solution@),
        spec_all_green(spec_evaluate(guess@, solution@)) ==> action == PlayAction::Finish(
            Some(final(state).turn),
        ) && final(state).remaining == old(state).remaining,
        !spec_all_green(spec_evaluate(guess@, solution@)) ==> final(state).remaining.deep_view()
            == spec_filter(old(state).remaining.deep_view(), final(state).history@),
        !spec_all_green(spec_evaluate(guess@, solution@)) ==> forall|words: Seq<Seq<char>>|
            old(state).remaining.deep_view() == #[trigger] spec_filter(words, old(state).history@)
                ==> final(state).remaining.deep_view() == spec_filter(words, final(state).history@),
        !spec_all_green(spec_evaluate(guess@, solution@)) ==> action == (if final(state).turn
            < final(state).max_guesses {
            PlayAction::Guess
        } else {
            PlayAction::Finish(None)
        }),
        (old(state).remaining.deep_view().contains(solution@) && forall|j: int|
            0 <= j < old(state).history@.len() ==> (#[trigger] old(state).history@[j]).0@.len()
                == 5 && old(state).history@[j].1@ == spec_evaluate(
                old(state).history@[j].0@,
                solution@,
            )) ==> final(state).remaining.deep_view().contains(solution@),
{
    let pattern = evaluate(guess.as_str(), solution);
    state.history.push((guess, pattern));
    state.turn = state.turn + 1;
    proof {
        assert(state.history@.drop_last() =~= old(state).history@);
    }
    if all_green(&pattern) {
        return PlayAction::Finish(Some(state.turn));
    }
    proof {
        let h = state.history@;
        assert(h == old(state).history@.push(h.last()));
        assert forall|words: Seq<Seq<char>>|
            old(state).remaining.deep_view() == #[trigger] spec_filter(words, old(state).history@)
                implies spec_filter(old(state).remaining.deep_view(), h) == spec_filter(words, h) by {
            lemma_filter_refine(words, old(state).history@, h.last());
        }
        let rem = old(state).remaining.deep_view();
        if rem.contains(solution@) && forall|j: int|
            0 <= j < old(state).history@.len() ==> (#[trigger] old(state).history@[j]).0@.len()
                == 5 && old(state).history@[j].1@ == spec_evaluate(
                old(state).history@[j].0@,
                solution@,
            ) {
            assert forall|j: int| 0 <= j < h.len() implies (#[trigger] h[j]).0@.len() == 5
                && h[j].1@ == spec_evaluate(h[j].0@, solution@) by {
                if j < h.len() - 1 {
                    assert(h[j] == old(state).history@[j]);
                }
            }
            lemma_filter_keeps_solution(rem, h, solution@);
        }
    }
    let kept = filter(state.remaining.as_slice(), state.history.as_slice());
    state.remaining = kept;
    if state.turn < state.max_guesses {
        PlayAction::Guess
    } else {
        PlayAction::Finish(None)
    }
}

} // verus!
