use vstd::prelude::*;

use crate::feedback::{
    all_green, evaluate, lemma_all_green_iff_solved, spec_all_green, spec_evaluate, Pattern,
};

verus! {

/// A single game of Wordle: the solution and the guesses made so far.
pub struct Game {
    pub solution: String,
    guesses: Vec<(String, Pattern)>,
}

/// Guesses allowed in a game.
pub const MAX_GUESSES: usize = 6;

/// The last guess of a history got five Green tiles.
pub open spec fn spec_won(history: Seq<(String, Pattern)>) -> bool {
    history.len() > 0 && spec_all_green(history.last().1@)
}

/// A game with this history is over: won, or out of guesses.
pub open spec fn spec_finished(history: Seq<(String, Pattern)>) -> bool {
    spec_won(history) || history.len() >= MAX_GUESSES
}

impl Game {
    /// The solution word.
    pub closed spec fn spec_solution(&self) -> String {
        self.solution
    }

    /// The (guess, pattern) pairs made so far, in order.
    pub closed spec fn spec_history(&self) -> Seq<(String, Pattern)> {
        self.guesses@
    }

    /// Create a new game with the given solution word.
    pub fn new(solution: String) -> (game: Self)
        ensures
            game.spec_solution() == solution,
            game.spec_history().len() == 0,
    {
        Game { solution, guesses: Vec::new() }
    }

    /// Make a guess. Returns the feedback Pattern.
    pub fn guess(&mut self, word: &str) -> (pattern: Pattern)
        requires
            word@.len() == 5,
            old(self).spec_solution()@.len() == 5,
        ensures
            pattern@ == spec_evaluate(word@, old(self).spec_solution()@),
            final(self).spec_solution() == old(self).spec_solution(),
            final(self).spec_history().len() == old(self).spec_history().len() + 1,
            final(self).spec_history().drop_last() == old(self).spec_history(),
            final(self).spec_history().last().0@ == word@,
            final(self).spec_history().last().1 == pattern,
    {
        let pattern = evaluate(word, self.solution.as_str());
        self.guesses.push((word.to_owned(), pattern));
        assert(self.guesses@.drop_last() =~= old(self).guesses@);
        pattern
    }

    /// Return the history of (guess, pattern) pairs.
    pub fn history(&self) -> (history: &[(String, Pattern)])
        ensures
            history@ == self.spec_history(),
    {
        self.guesses.as_slice()
    }

    /// True if the last guess was fully correct (all Green).
    pub fn is_won(&self) -> (won: bool)
        ensures
            won == spec_won(self.spec_history()),
    {
        let n = self.guesses.len();
        if n == 0 {
            false
        } else {
            all_green(&self.guesses[n - 1].1)
        }
    }

    /// True if game is over (won or max guesses reached).
    pub fn is_finished(&self) -> (finished: bool)
        ensures
            finished == spec_finished(self.spec_history()),
    {
        self.is_won() || self.guesses.len() >= MAX_GUESSES
    }

    /// Number of guesses made so far.
    pub fn turns_used(&self) -> (turns: usize)
        ensures
            turns == self.spec_history().len(),
    {
        self.guesses.len()
    }
}

/// A game with no guesses yet is neither won nor finished.
pub proof fn lemma_new_game_open(history: Seq<(String, Pattern)>)
    requires
        history.len() == 0,
    ensures
        !spec_won(history),
        !spec_finished(history),
{
}

/// A guess is a win exactly when it is the solution: after recording
/// `(guess, evaluation of guess against solution)` the game is won if and only
/// if the guess equals the solution.
pub proof fn lemma_guess_wins_iff_solution(
    history: Seq<(String, Pattern)>,
    entry: (String, Pattern),
    solution: Seq<char>,
)
    requires
        entry.0@.len() == 5,
        solution.len() == 5,
        entry.1@ == spec_evaluate(entry.0@, solution),
    ensures
        spec_won(history.push(entry)) <==> entry.0@ == solution,
{
    lemma_all_green_iff_solved(entry.0@, solution);
    assert(history.push(entry).last() == entry);
}

/// Once six guesses have been made, the game is over.
pub proof fn lemma_finished_after_six(history: Seq<(String, Pattern)>)
    requires
        history.len() >= 6,
    ensures
        spec_finished(history),
{
}

} // verus!
