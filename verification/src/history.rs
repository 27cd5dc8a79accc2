use vstd::prelude::*;

use crate::feedback::{Feedback, Pattern};
use crate::render::{parse_pattern, spec_parse_pattern, PatternError};

verus! {

/// What `serde_json` reads from a history text: when the text is a JSON array,
/// each item's fields named `first` and `second`, each present when it is a
/// string; otherwise the parser's error message.
pub uninterp spec fn spec_json_history_items(
    json: Seq<char>,
    first: Seq<char>,
    second: Seq<char>,
) -> Result<Seq<(Option<Seq<char>>, Option<Seq<char>>)>, Seq<char>>;

/// `serde_json::from_str` into a list of `serde_json::Value`s, with each
/// value's fields `first` and `second` read by indexing and `as_str`: the
/// result is a function of the text and the two field names alone, named
/// `spec_json_history_items`.
#[verifier::external_body]
fn json_history_items(json: &str, first: &str, second: &str) -> (items: Result<
    Vec<(Option<String>, Option<String>)>,
    String,
>)
    ensures
        match items {
            Ok(v) => spec_json_history_items(json@, first@, second@) is Ok
                && spec_json_history_items(json@, first@, second@)->Ok_0 == v.deep_view(),
            Err(e) => spec_json_history_items(json@, first@, second@) is Err
                && spec_json_history_items(json@, first@, second@)->Err_0 == e@,
        },
{
    let values: Vec<serde_json::Value> = serde_json::from_str(json).map_err(|e| e.to_string())?;
    Ok(
        values.iter().map(
            |v| (v[first].as_str().map(String::from), v[second].as_str().map(String::from)),
        ).collect(),
    )
}

/// Why a history text was refused.
#[derive(Debug, Clone, PartialEq, Eq)]
pub enum HistoryError {
    /// The text is not a JSON array; the parser's message.
    Json(String),
    /// An item has no `guess` string.
    MissingGuess,
    /// An item has no `pattern` string.
    MissingPattern,
    /// An item's pattern code is refused.
    BadPattern(PatternError),
}

/// The history that a list of (guess, pattern code) items spells, read in
/// order: the first item without a guess, without a pattern, or with a refused
/// pattern code gives the error; otherwise the guesses with their patterns.
pub open spec fn spec_history_from_items(items: Seq<(Option<Seq<char>>, Option<Seq<char>>)>) -> Result<
    Seq<(Seq<char>, Seq<Feedback>)>,
    HistoryError,
>
    decreases items.len(),
{
    if items.len() == 0 {
        Ok(Seq::empty())
    } else {
        match spec_history_from_items(items.drop_last()) {
            Err(e) => Err(e),
            Ok(h) => match items.last().0 {
                None => Err(HistoryError::MissingGuess),
                Some(g) => match items.last().1 {
                    None => Err(HistoryError::MissingPattern),
                    Some(code) => match spec_parse_pattern(code) {
                        Err(pe) => Err(HistoryError::BadPattern(pe)),
                        Ok(p) => Ok(h.push((g, p))),
                    },
                },
            },
        }
    }
}

/// An error on a prefix of the items is the error of the whole list.
proof fn lemma_history_error_stays(
    items: Seq<(Option<Seq<char>>, Option<Seq<char>>)>,
    k: int,
    e: HistoryError,
)
    requires
        0 <= k <= items.len(),
        spec_history_from_items(items.take(k)) == Err::<Seq<(Seq<char>, Seq<Feedback>)>, HistoryError>(e),
    ensures
        spec_history_from_items(items) == Err::<Seq<(Seq<char>, Seq<Feedback>)>, HistoryError>(e),
    decreases items.len() - k,
{
    if k < items.len() {
        assert(items.take(k + 1).drop_last() =~= items.take(k));
        lemma_history_error_stays(items, k + 1, e);
    } else {
        assert(items.take(k) =~= items);
    }
}

/// Read a game history from (guess, pattern code) items, in order; see
/// `spec_history_from_items`.
pub fn history_from_items(items: &[(Option<String>, Option<String>)]) -> (history: Result<
    Vec<(String, Pattern)>,
    HistoryError,
>)
    ensures
        match spec_history_from_items(items.deep_view()) {
            Err(fault) => history == Err::<Vec<(String, Pattern)>, HistoryError>(fault),
            Ok(entries) => history matches Ok(v) && v@.len() == entries.len() && forall|i: int|
                0 <= i < entries.len() ==> (#[trigger] v@[i]).0@ == entries[i].0 && v@[i].1@
                    == entries[i].1,
        },
{
    let ghost seen = items.deep_view();
    let mut history: Vec<(String, Pattern)> = Vec::new();
    let mut i: usize = 0;
    while i < items.len()
        invariant
            seen == items.deep_view(),
            i <= items@.len(),
            spec_history_from_items(seen.take(i as int)) matches Ok(entries) && history@.len()
                == entries.len() && forall|k: int|
                0 <= k < entries.len() ==> (#[trigger] history@[k]).0@ == entries[k].0
                    && history@[k].1@ == entries[k].1,
        decreases items.len() - i,
    {
        proof {
            assert(seen.take(i + 1).drop_last() =~= seen.take(i as int));
            assert(seen.take(i + 1).last() == seen[i as int]);
            assert(seen[i as int] == items@[i as int].deep_view());
        }
        let guess = match &items[i].0 {
            Some(g) => g.clone(),
            None => {
                proof {
                    lemma_history_error_stays(seen, i + 1, HistoryError::MissingGuess);
                }
                return Err(HistoryError::MissingGuess);
            },
        };
        let code = match &items[i].1 {
            Some(c) => c,
            None => {
                proof {
                    lemma_history_error_stays(seen, i + 1, HistoryError::MissingPattern);
                }
                return Err(HistoryError::MissingPattern);
            },
        };
        let pattern = match parse_pattern(code.as_str()) {
            Ok(p) => p,
            Err(e) => {
                proof {
                    lemma_history_error_stays(seen, i + 1, HistoryError::BadPattern(e));
                }
                return Err(HistoryError::BadPattern(e));
            },
        };
        let ghost before = history@;
        history.push((guess, pattern));
        proof {
            let entries = spec_history_from_items(seen.take(i + 1))->Ok_0;
            assert forall|k: int| 0 <= k < entries.len() implies (#[trigger] history@[k]).0@
                == entries[k].0 && history@[k].1@ == entries[k].1 by {
                if k < before.len() {
                    assert(history@[k] == before[k]);
                }
            }
        }
        i = i + 1;
    }
    proof {
        assert(seen.take(items@.len() as int) =~= seen);
    }
    Ok(history)
}

/// Read a game history from JSON text: an array of objects with a `guess`
/// string and a `pattern` code string (see `parse_pattern`). Text that is not
/// a JSON array gives the parser's message; otherwise the items are read in
/// order as `history_from_items` does.
pub fn parse_history(json: &str) -> (history: Result<Vec<(String, Pattern)>, HistoryError>)
    ensures
        match spec_json_history_items(json@, "guess"@, "pattern"@) {
            Err(m) => history matches Err(HistoryError::Json(e)) && e@ == m,
            Ok(items) => match spec_history_from_items(items) {
                Err(fault) => history == Err::<Vec<(String, Pattern)>, HistoryError>(fault),
                Ok(entries) => history matches Ok(v) && v@.len() == entries.len() && forall|i: int|
                    0 <= i < entries.len() ==> (#[trigger] v@[i]).0@ == entries[i].0 && v@[i].1@
                        == entries[i].1,
            },
        },
{
    match json_history_items(json, "guess", "pattern") {
        Ok(items) => history_from_items(items.as_slice()),
        Err(e) => Err(HistoryError::Json(e)),
    }
}

} // verus!
