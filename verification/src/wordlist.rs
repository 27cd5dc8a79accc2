use vstd::prelude::*;

use crate::feedback::{
    is_consistent, is_lower, is_word, lemma_solution_consistent, spec_consistent, spec_evaluate,
    Pattern,
};
use crate::text::{char_vec, string_from_chars};
use crate::words::WORD_TEXT;

verus! {

/// A character with the Unicode `White_Space` property.
pub open spec fn is_space(c: char) -> bool {
    ||| '\t' <= c <= '\r'
    ||| c == ' '
    ||| c == '\u{85}'
    ||| c == '\u{a0}'
    ||| c == '\u{1680}'
    ||| '\u{2000}' <= c <= '\u{200a}'
    ||| c == '\u{2028}'
    ||| c == '\u{2029}'
    ||| c == '\u{202f}'
    ||| c == '\u{205f}'
    ||| c == '\u{3000}'
}

/// `line` without its leading whitespace.
pub open spec fn trim_start(line: Seq<char>) -> Seq<char>
    decreases line.len(),
{
    if line.len() > 0 && is_space(line[0]) {
        trim_start(line.drop_first())
    } else {
        line
    }
}

/// `line` without its trailing whitespace.
pub open spec fn trim_end(line: Seq<char>) -> Seq<char>
    decreases line.len(),
{
    if line.len() > 0 && is_space(line.last()) {
        trim_end(line.drop_last())
    } else {
        line
    }
}

/// `line` without leading and trailing whitespace.
pub open spec fn trim(line: Seq<char>) -> Seq<char> {
    trim_end(trim_start(line))
}

/// The lines of `text`, split at each `'\n'` (the last one may be empty).
pub open spec fn split_lines(text: Seq<char>) -> Seq<Seq<char>>
    decreases text.len(),
{
    if text.len() == 0 {
        seq![Seq::empty()]
    } else {
        let before = split_lines(text.drop_last());
        if text.last() == '\n' {
            before.push(Seq::empty())
        } else {
            before.update(before.len() - 1, before.last().push(text.last()))
        }
    }
}

/// The word on a line: the trimmed line, when it is five lowercase letters.
pub open spec fn line_word(line: Seq<char>) -> Seq<Seq<char>> {
    if is_word(trim(line)) {
        seq![trim(line)]
    } else {
        Seq::empty()
    }
}

/// The words on a sequence of lines, in order.
pub open spec fn lines_words(lines: Seq<Seq<char>>) -> Seq<Seq<char>>
    decreases lines.len(),
{
    if lines.len() == 0 {
        Seq::empty()
    } else {
        lines_words(lines.drop_last()) + line_word(lines.last())
    }
}

/// The words of a text: every line that, trimmed, is five lowercase letters.
pub open spec fn text_words(text: Seq<char>) -> Seq<Seq<char>> {
    lines_words(split_lines(text))
}

proof fn lemma_split_lines_nonempty(text: Seq<char>)
    ensures
        split_lines(text).len() >= 1,
    decreases text.len(),
{
    if text.len() > 0 {
        lemma_split_lines_nonempty(text.drop_last());
    }
}

/// Whether `c` has the Unicode `White_Space` property.
fn is_space_char(c: char) -> (b: bool)
    ensures
        b == is_space(c),
{
    ('\t' <= c && c <= '\r') || c == ' ' || c == '\u{85}' || c == '\u{a0}' || c == '\u{1680}' || (
    '\u{2000}' <= c && c <= '\u{200a}') || c == '\u{2028}' || c == '\u{2029}' || c == '\u{202f}'
        || c == '\u{205f}' || c == '\u{3000}'
}

/// The word on one line, if its trimmed text is five lowercase letters.
fn word_on_line(line: &Vec<char>) -> (word: Option<String>)
    ensures
        word is Some <==> is_word(trim(line@)),
        word matches Some(w) ==> w@ == trim(line@),
{
    let n = line.len();
    let mut a: usize = 0;
    assert(line@.subrange(0, n as int) =~= line@);
    while a < n && is_space_char(line[a])
        invariant
            a <= n == line@.len(),
            trim_start(line@) == trim_start(line@.subrange(a as int, n as int)),
        decreases n - a,
    {
        assert(line@.subrange(a as int, n as int).drop_first() =~= line@.subrange(
            a + 1,
            n as int,
        ));
        a = a + 1;
    }
    let ghost head = line@.subrange(a as int, n as int);
    assert(trim_start(line@) == head);
    let mut b: usize = n;
    while b > a && is_space_char(line[b - 1])
        invariant
            a <= b <= n == line@.len(),
            trim(line@) == trim_end(line@.subrange(a as int, b as int)),
        decreases b,
    {
        assert(line@.subrange(a as int, b as int).drop_last() =~= line@.subrange(
            a as int,
            b - 1,
        ));
        b = b - 1;
    }
    let ghost body = line@.subrange(a as int, b as int);
    assert(trim(line@) == body);
    if b - a != 5 {
        assert(body.len() != 5);
        return None;
    }
    let mut k: usize = a;
    while k < b
        invariant
            a <= k <= b <= n == line@.len(),
            b - a == 5,
            body == line@.subrange(a as int, b as int),
            trim(line@) == body,
            forall|m: int| a <= m < k ==> is_lower(#[trigger] line@[m]),
        decreases b - k,
    {
        let c = line[k];
        if !('a' <= c && c <= 'z') {
            assert(!is_lower(body[k - a]));
            return None;
        }
        k = k + 1;
    }
    assert forall|i: int| 0 <= i < 5 implies is_lower(#[trigger] body[i]) by {
        assert(body[i] == line@[a + i]);
    }
    Some(string_from_chars(line, a, b))
}

/// The words of a text: each line, trimmed, that is five lowercase letters.
pub fn parse_words(text: &str) -> (words: Vec<String>)
    ensures
        words.deep_view() == text_words(text@),
{
    let mut words: Vec<String> = Vec::new();
    let mut line: Vec<char> = Vec::new();
    let ghost mut done: Seq<Seq<char>> = Seq::empty();
    for c in it: text.chars()
        invariant
            it.seq() == text@,
            split_lines(text@.take(it.index() as int)) == done.push(line@),
            words.deep_view() == lines_words(done),
    {
        let ghost idx = it.index();
        assert(text@.take(idx + 1).drop_last() =~= text@.take(idx as int));
        assert(text@.take(idx + 1).last() == c);
        if c == '\n' {
            let ghost old_words = words.deep_view();
            match word_on_line(&line) {
                Some(w) => {
                    words.push(w);
                },
                None => {},
            }
            proof {
                assert(done.push(line@).drop_last() =~= done);
                assert(words.deep_view() =~= lines_words(done.push(line@)));
                done = done.push(line@);
            }
            line = Vec::new();
        } else {
            proof {
                lemma_split_lines_nonempty(text@.take(idx as int));
            }
            line.push(c);
            proof {
                assert(split_lines(text@.take(idx + 1)) =~= done.push(line@));
            }
        }
    }
    assert(text@.take(text@.len() as int) =~= text@);
    match word_on_line(&line) {
        Some(w) => {
            words.push(w);
        },
        None => {},
    }
    proof {
        assert(done.push(line@).drop_last() =~= done);
        assert(words.deep_view() =~= lines_words(done.push(line@)));
    }
    words
}

/// Load the word list: the five-letter lowercase words of `WORD_TEXT`
/// (2,312 of them), in order.
pub fn load_words() -> (words: Vec<String>)
    ensures
        words.deep_view() == text_words(WORD_TEXT@),
        forall|i: int| 0 <= i < words.len() ==> is_word(#[trigger] words@[i]@),
{
    let words = parse_words(WORD_TEXT);
    proof {
        lemma_text_words_are_words(WORD_TEXT@);
        assert forall|i: int| 0 <= i < words.len() implies is_word(#[trigger] words@[i]@) by {
            assert(words.deep_view()[i] == words@[i]@);
        }
    }
    words
}

/// Every word that `text_words` finds is five lowercase letters.
pub proof fn lemma_text_words_are_words(text: Seq<char>)
    ensures
        forall|i: int|
            0 <= i < text_words(text).len() ==> is_word(#[trigger] text_words(text)[i]),
{
    lemma_lines_words_are_words(split_lines(text));
}

proof fn lemma_lines_words_are_words(lines: Seq<Seq<char>>)
    ensures
        forall|i: int|
            0 <= i < lines_words(lines).len() ==> is_word(#[trigger] lines_words(lines)[i]),
    decreases lines.len(),
{
    if lines.len() > 0 {
        lemma_lines_words_are_words(lines.drop_last());
        let a = lines_words(lines.drop_last());
        let b = line_word(lines.last());
        assert forall|i: int| 0 <= i < lines_words(lines).len() implies is_word(
            #[trigger] lines_words(lines)[i],
        ) by {
            if i >= a.len() {
                assert(lines_words(lines)[i] == b[i - a.len()]);
            } else {
                assert(lines_words(lines)[i] == a[i]);
            }
        }
    }
}

/// `w` is consistent with every (guess, pattern) pair of `history`.
pub open spec fn consistent_with_history(w: Seq<char>, history: Seq<(String, Pattern)>) -> bool {
    forall|j: int|
        0 <= j < history.len() ==> spec_consistent(w, #[trigger] history[j].0@, history[j].1@)
}

/// The words of `words`, in order, that are consistent with all of `history`.
pub open spec fn spec_filter(words: Seq<Seq<char>>, history: Seq<(String, Pattern)>) -> Seq<
    Seq<char>,
>
    decreases words.len(),
{
    if words.len() == 0 {
        Seq::empty()
    } else {
        spec_filter(words.drop_last(), history) + if consistent_with_history(
            words.last(),
            history,
        ) {
            seq![words.last()]
        } else {
            Seq::empty()
        }
    }
}

/// Filter a list of candidate words, keeping only those consistent
/// with all previous (guess, pattern) feedback.
pub fn filter(words: &[String], history: &[(String, Pattern)]) -> (kept: Vec<String>)
    ensures
        kept.deep_view() == spec_filter(words.deep_view(), history@),
{
    let mut kept: Vec<String> = Vec::new();
    let mut i: usize = 0;
    while i < words.len()
        invariant
            i <= words.len(),
            kept.deep_view() == spec_filter(words.deep_view().take(i as int), history@),
        decreases words.len() - i,
    {
        let mut all_ok = true;
        let mut j: usize = 0;
        while j < history.len() && all_ok
            invariant
                i < words.len(),
                j <= history.len(),
                all_ok == forall|m: int|
                    0 <= m < j ==> spec_consistent(words@[i as int]@, #[trigger] history@[m].0@, history@[m].1@),
            decreases history.len() - j,
        {
            let ok = is_consistent(words[i].as_str(), history[j].0.as_str(), &history[j].1);
            all_ok = ok;
            j = j + 1;
        }
        proof {
            let ws = words.deep_view();
            assert(ws.take(i + 1).drop_last() =~= ws.take(i as int));
            assert(ws.take(i + 1).last() == words@[i as int]@);
            if !all_ok {
                assert(!consistent_with_history(words@[i as int]@, history@));
            }
        }
        if all_ok {
            kept.push(words[i].clone());
        }
        proof {
            let ws = words.deep_view();
            assert(kept.deep_view() =~= spec_filter(ws.take(i + 1), history@));
        }
        i = i + 1;
    }
    assert(words.deep_view().take(words.len() as int) =~= words.deep_view());
    kept
}

/// With no feedback yet, every word is kept.
pub proof fn lemma_filter_empty_history(words: Seq<Seq<char>>)
    ensures
        spec_filter(words, Seq::empty()) == words,
    decreases words.len(),
{
    if words.len() > 0 {
        lemma_filter_empty_history(words.drop_last());
        assert(words.drop_last().push(words.last()) =~= words);
    }
}

/// The kept words are words of the input that fit all the feedback.
pub proof fn lemma_filter_sound(words: Seq<Seq<char>>, history: Seq<(String, Pattern)>)
    ensures
        forall|i: int|
            0 <= i < spec_filter(words, history).len() ==> words.contains(
                #[trigger] spec_filter(words, history)[i],
            ) && consistent_with_history(spec_filter(words, history)[i], history),
        spec_filter(words, history).len() <= words.len(),
    decreases words.len(),
{
    if words.len() > 0 {
        let rest = words.drop_last();
        lemma_filter_sound(rest, history);
        let f = spec_filter(words, history);
        let fr = spec_filter(rest, history);
        assert forall|i: int| 0 <= i < f.len() implies words.contains(#[trigger] f[i])
            && consistent_with_history(f[i], history) by {
            if i < fr.len() {
                assert(f[i] == fr[i]);
                let k = choose|k: int| 0 <= k < rest.len() && rest[k] == fr[i];
                assert(words[k] == rest[k]);
            } else {
                assert(f[i] == words.last());
                assert(words[words.len() - 1] == words.last());
            }
        }
    }
}

/// A word consistent with all the feedback is kept.
pub proof fn lemma_filter_complete(
    words: Seq<Seq<char>>,
    history: Seq<(String, Pattern)>,
    w: Seq<char>,
)
    requires
        words.contains(w),
        consistent_with_history(w, history),
    ensures
        spec_filter(words, history).contains(w),
    decreases words.len(),
{
    let rest = words.drop_last();
    let f = spec_filter(words, history);
    if words.last() == w {
        assert(f[f.len() - 1] == w);
    } else {
        let k = choose|k: int| 0 <= k < words.len() && words[k] == w;
        assert(k < words.len() - 1);
        assert(rest[k] == w);
        lemma_filter_complete(rest, history, w);
        let fr = spec_filter(rest, history);
        let m = choose|m: int| 0 <= m < fr.len() && fr[m] == w;
        assert(f[m] == w);
    }
}

/// Every guess of the history, evaluated with `w` as the solution, gives the
/// recorded pattern, guess and `w` both being five characters long.
pub open spec fn fits_feedback(w: Seq<char>, history: Seq<(String, Pattern)>) -> bool {
    &&& history.len() > 0 ==> w.len() == 5
    &&& forall|j: int|
        0 <= j < history.len() ==> (#[trigger] history[j].0@).len() == 5 && spec_evaluate(
            history[j].0@,
            w,
        ) == history[j].1@
}

/// Fitting every entry's feedback is being consistent with the history.
proof fn lemma_fits_is_consistent(w: Seq<char>, history: Seq<(String, Pattern)>)
    ensures
        fits_feedback(w, history) <==> consistent_with_history(w, history),
{
    if history.len() > 0 {
        assert(spec_consistent(w, history[0].0@, history[0].1@) ==> w.len() == 5);
    }
}

/// Filtering keeps a word of the list exactly when every guess of the history,
/// evaluated with that word as the solution, gives the recorded pattern (guess
/// and word both five characters long).
pub proof fn lemma_filter_fits(
    words: Seq<Seq<char>>,
    history: Seq<(String, Pattern)>,
    w: Seq<char>,
)
    requires
        words.contains(w),
    ensures
        spec_filter(words, history).contains(w) <==> fits_feedback(w, history),
{
    lemma_fits_is_consistent(w, history);
    if consistent_with_history(w, history) {
        lemma_filter_complete(words, history, w);
    }
    let f = spec_filter(words, history);
    if f.contains(w) {
        lemma_filter_sound(words, history);
        let k = choose|k: int| 0 <= k < f.len() && f[k] == w;
        assert(consistent_with_history(f[k], history));
    }
}

/// Filtering never discards the solution: if every (guess, pattern) pair of
/// the history is the feedback some five-letter guess received against a
/// five-letter solution that is among the words, the solution is kept.
pub proof fn lemma_filter_keeps_solution(
    words: Seq<Seq<char>>,
    history: Seq<(String, Pattern)>,
    solution: Seq<char>,
)
    requires
        words.contains(solution),
        solution.len() == 5,
        forall|j: int|
            0 <= j < history.len() ==> (#[trigger] history[j]).0@.len() == 5 && history[j].1@
                == spec_evaluate(history[j].0@, solution),
    ensures
        spec_filter(words, history).contains(solution),
{
    assert forall|j: int| 0 <= j < history.len() implies spec_consistent(
        solution,
        #[trigger] history[j].0@,
        history[j].1@,
    ) by {
        assert(history[j].0@.len() == 5);
        lemma_solution_consistent(history[j].0@, solution);
    }
    lemma_filter_complete(words, history, solution);
}

/// Filtering by one history and then by another is filtering by both at once.
pub proof fn lemma_filter_twice(
    words: Seq<Seq<char>>,
    first: Seq<(String, Pattern)>,
    second: Seq<(String, Pattern)>,
)
    ensures
        spec_filter(spec_filter(words, first), second) == spec_filter(words, first + second),
    decreases words.len(),
{
    if words.len() > 0 {
        let rest = words.drop_last();
        let w = words.last();
        lemma_filter_twice(rest, first, second);
        let both = first + second;
        assert(consistent_with_history(w, both) <==> consistent_with_history(w, first)
            && consistent_with_history(w, second)) by {
            if consistent_with_history(w, first) && consistent_with_history(w, second) {
                assert forall|j: int| 0 <= j < both.len() implies spec_consistent(
                    w,
                    #[trigger] both[j].0@,
                    both[j].1@,
                ) by {
                    if j < first.len() {
                        assert(both[j] == first[j]);
                    } else {
                        assert(both[j] == second[j - first.len()]);
                    }
                }
            }
            if consistent_with_history(w, both) {
                assert forall|j: int| 0 <= j < first.len() implies spec_consistent(
                    w,
                    #[trigger] first[j].0@,
                    first[j].1@,
                ) by {
                    assert(both[j] == first[j]);
                }
                assert forall|j: int| 0 <= j < second.len() implies spec_consistent(
                    w,
                    #[trigger] second[j].0@,
                    second[j].1@,
                ) by {
                    assert(both[j + first.len()] == second[j]);
                }
            }
        }
        let f1 = spec_filter(words, first);
        let f1r = spec_filter(rest, first);
        if consistent_with_history(w, first) {
            assert(f1 == f1r.push(w));
            assert(f1.drop_last() =~= f1r);
        } else {
            assert(f1 =~= f1r);
        }
    }
}

/// Five lowercase ASCII letters: the words a player may guess.
pub fn is_valid_word(word: &str) -> (valid: bool)
    ensures
        valid == is_word(word@),
{
    let chars = char_vec(word);
    if chars.len() != 5 {
        return false;
    }
    let mut i: usize = 0;
    while i < 5
        invariant
            chars@ == word@,
            chars@.len() == 5,
            i <= 5,
            forall|k: int| 0 <= k < i ==> is_lower(#[trigger] chars@[k]),
        decreases 5 - i,
    {
        let c = chars[i];
        if !('a' <= c && c <= 'z') {
            assert(!is_lower(word@[i as int]));
            return false;
        }
        i = i + 1;
    }
    true
}

/// Whether `word` is one of `words`.
pub fn contains_word(words: &[String], word: &String) -> (found: bool)
    ensures
        found == words.deep_view().contains(word@),
{
    let mut i: usize = 0;
    while i < words.len()
        invariant
            i <= words@.len(),
            forall|k: int| 0 <= k < i ==> (#[trigger] words@[k])@ != word@,
        decreases words.len() - i,
    {
        if words[i] == *word {
            assert(words.deep_view()[i as int] == word@);
            return true;
        }
        i = i + 1;
    }
    assert forall|k: int| 0 <= k < words.deep_view().len() implies #[trigger] words.deep_view()[k]
        != word@ by {
        assert(words.deep_view()[k] == words@[k]@);
    }
    false
}

/// Histories that admit the same words filter alike.
pub proof fn lemma_filter_same_fit(
    words: Seq<Seq<char>>,
    first: Seq<(String, Pattern)>,
    second: Seq<(String, Pattern)>,
)
    requires
        forall|w: Seq<char>| #[trigger]
            consistent_with_history(w, first) == consistent_with_history(w, second),
    ensures
        spec_filter(words, first) == spec_filter(words, second),
    decreases words.len(),
{
    if words.len() > 0 {
        lemma_filter_same_fit(words.drop_last(), first, second);
        assert(consistent_with_history(words.last(), first) == consistent_with_history(
            words.last(),
            second,
        ));
    }
}

/// Filtering the candidates left by a history again by that history grown by
/// one entry is filtering the whole list by the grown history.
pub proof fn lemma_filter_refine(
    words: Seq<Seq<char>>,
    history: Seq<(String, Pattern)>,
    entry: (String, Pattern),
)
    ensures
        spec_filter(spec_filter(words, history), history.push(entry)) == spec_filter(
            words,
            history.push(entry),
        ),
{
    let grown = history.push(entry);
    lemma_filter_twice(words, history, grown);
    assert forall|w: Seq<char>| #[trigger]
        consistent_with_history(w, history + grown) == consistent_with_history(w, grown) by {
        let both = history + grown;
        if consistent_with_history(w, grown) {
            assert forall|j: int| 0 <= j < both.len() implies spec_consistent(
                w,
                #[trigger] both[j].0@,
                both[j].1@,
            ) by {
                if j < history.len() {
                    assert(both[j] == grown[j]);
                } else {
                    assert(both[j] == grown[j - history.len()]);
                }
            }
        }
        if consistent_with_history(w, both) {
            assert forall|j: int| 0 <= j < grown.len() implies spec_consistent(
                w,
                #[trigger] grown[j].0@,
                grown[j].1@,
            ) by {
                assert(both[j + history.len()] == grown[j]);
            }
        }
    }
    lemma_filter_same_fit(words, history + grown, grown);
}

} // verus!
