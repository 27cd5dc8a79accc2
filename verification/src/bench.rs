use vstd::prelude::*;

verus! {

/// Tallies of a benchmark run: games won, guesses used in won games, and the
/// distribution of outcomes (`distribution[g]` for a win in `g` guesses, up to
/// 6; `distribution[0]` for a lost game).
pub struct BenchStats {
    pub wins: usize,
    pub total_guesses: usize,
    pub distribution: [usize; 7],
}

/// The distribution slot of a won game: the number of guesses, capped at 6.
pub open spec fn win_slot(guesses: usize) -> int {
    if guesses < 6 {
        guesses as int
    } else {
        6
    }
}

impl BenchStats {
    /// No games recorded yet.
    pub fn new() -> (stats: Self)
        ensures
            stats.wins == 0,
            stats.total_guesses == 0,
            forall|g: int| 0 <= g < 7 ==> #[trigger] stats.distribution[g] == 0,
    {
        BenchStats { wins: 0, total_guesses: 0, distribution: [0usize; 7] }
    }

    /// Record one game: `Some(g)` when it was won in `g` guesses, `None` when lost.
    pub fn record(&mut self, result: Option<usize>)
        requires
            result matches Some(g) ==> old(self).wins < usize::MAX && old(self).total_guesses + g
                <= usize::MAX && old(self).distribution[win_slot(g)] < usize::MAX,
            result is None ==> old(self).distribution[0] < usize::MAX,
        ensures
            result matches Some(g) ==> final(self).wins == old(self).wins + 1
                && final(self).total_guesses == old(self).total_guesses + g
                && final(self).distribution@ == old(self).distribution@.update(
                win_slot(g),
                (old(self).distribution[win_slot(g)] + 1) as usize,
            ),
            result is None ==> final(self).wins == old(self).wins && final(self).total_guesses
                == old(self).total_guesses && final(self).distribution@
                == old(self).distribution@.update(0, (old(self).distribution[0] + 1) as usize),
    {
        match result {
            Some(guesses) => {
                self.wins = self.wins + 1;
                self.total_guesses = self.total_guesses + guesses;
                let slot = if guesses < 6 {
                    guesses
                } else {
                    6
                };
                self.distribution[slot] = self.distribution[slot] + 1;
            },
            None => {
                self.distribution[0] = self.distribution[0] + 1;
            },
        }
        assert(self.distribution@ =~= match result {
            Some(g) => old(self).distribution@.update(
                win_slot(g),
                (old(self).distribution[win_slot(g)] + 1) as usize,
            ),
            None => old(self).distribution@.update(0, (old(self).distribution[0] + 1) as usize),
        });
    }
}

} // verus!
