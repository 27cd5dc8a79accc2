use wordlebrain::bench::BenchStats;
use wordlebrain::feedback::{
    all_green, evaluate, is_consistent, pattern_from_key, pattern_key, Feedback, Pattern,
};
use Feedback::{Green, Grey, Yellow};
use wordlebrain::features::{is_encodable, state_features, word_features, STATE_DIM, WORD_DIM};
use wordlebrain::game::{Game, MAX_GUESSES};
use wordlebrain::history::{parse_history, HistoryError};
use wordlebrain::render::{parse_pattern, pattern_code, pattern_parts, pattern_string, PatternError};
use wordlebrain::solver::{
    pattern_counts, pick_best, play_turn, shortlist_guess, start_play, EntropySolver, PlayAction,
    RandomSolver,
};
use wordlebrain::wordlist::{contains_word, filter, is_valid_word, load_words, parse_words};

fn all_patterns() -> Vec<Pattern> {
    (0..243u8).map(pattern_from_key).collect()
}

fn words(list: &[&str]) -> Vec<String> {
    list.iter().map(|w| w.to_string()).collect()
}

#[test]
fn every_key_decodes_and_encodes_back() {
    for key in 0..=255u8 {
        let p = pattern_from_key(key);
        assert_eq!(pattern_key(&p), key % 243);
    }
}

#[test]
fn every_pattern_encodes_and_decodes_back() {
    let patterns = all_patterns();
    for p in &patterns {
        assert!(pattern_key(p) < 243);
        assert_eq!(pattern_from_key(pattern_key(p)), *p);
    }
    assert_eq!(
        pattern_from_key(5),
        [
            Feedback::Green,
            Feedback::Green,
            Feedback::Green,
            Feedback::Yellow,
            Feedback::Grey
        ]
    );
    assert_eq!(pattern_from_key(243), [Feedback::Green; 5]);
}

#[test]
fn key_digits_are_most_significant_first() {
    let p = [
        Feedback::Yellow,
        Feedback::Green,
        Feedback::Green,
        Feedback::Green,
        Feedback::Green,
    ];
    assert_eq!(pattern_key(&p), 81);
}

#[test]
fn the_embedded_word_list_has_2312_words_in_order() {
    let list = load_words();
    assert_eq!(list.len(), 2312);
    assert_eq!(list[0], "aback");
    assert!(list.windows(2).all(|w| w[0] < w[1]));
}

#[test]
fn guessing_the_solution_is_all_green_and_only_then() {
    let list = load_words();
    let s = "crane";
    for g in list.iter().take(400) {
        let p = evaluate(g, s);
        assert_eq!(all_green(&p), g == s);
    }
    assert!(all_green(&evaluate("crane", "crane")));
}

#[test]
fn solution_fits_its_own_feedback() {
    let list = load_words();
    let sample: Vec<&String> = list.iter().step_by(37).collect();
    for g in &sample {
        for s in &sample {
            let p = evaluate(g, s);
            assert!(is_consistent(s, g, &p), "{} should fit {} -> {:?}", s, g, p);
        }
    }
    let p = evaluate("eerie", "there");
    assert!(is_consistent("there", "eerie", &p));
}

#[test]
fn coloured_tiles_per_letter_are_the_smaller_count() {
    let pairs = [
        ("speed", "steep"),
        ("llama", "crane"),
        ("eerie", "there"),
        ("abbey", "babel"),
        ("sassy", "essay"),
    ];
    for (g, s) in pairs {
        let p = evaluate(g, s);
        for c in 'a'..='z' {
            let in_guess = g.chars().filter(|&x| x == c).count();
            let in_solution = s.chars().filter(|&x| x == c).count();
            let coloured = g
                .chars()
                .zip(p.iter())
                .filter(|(x, f)| *x == c && **f != Feedback::Grey)
                .count();
            assert_eq!(coloured, in_guess.min(in_solution), "{} vs {} letter {}", g, s, c);
        }
    }
}

#[test]
fn yellow_goes_to_the_leftmost_copy() {
    // one spare 'e' in "cheap" for the three non-matching 'e's of "eerie"
    let p = evaluate("eerie", "cheap");
    assert_eq!(
        p,
        [
            Feedback::Yellow,
            Feedback::Grey,
            Feedback::Grey,
            Feedback::Grey,
            Feedback::Grey
        ]
    );
}

#[test]
fn yellow_tile_rejects_the_same_position() {
    let p = evaluate("stare", "crane");
    assert_eq!(p[3], Feedback::Yellow);
    assert!(!is_consistent("stare", "stare", &p));
    assert!(is_consistent("brace", "stare", &p));
    assert!(!is_consistent("trace", "stare", &p));
}

#[test]
fn grey_bounds_the_count_exactly() {
    // "speed" against "steep": two e's coloured, p yellow, d grey
    let p = evaluate("speed", "steep");
    assert!(is_consistent("steep", "speed", &p));
    // a letter shown coloured must occur at least that often
    let r = evaluate("eerie", "cheap");
    assert!(is_consistent("cheap", "eerie", &r));
    assert!(!is_consistent("chaps", "eerie", &r));
    // a grey 'e' caps the copies of 'e' at the coloured ones
    let q = [
        Feedback::Green,
        Feedback::Grey,
        Feedback::Green,
        Feedback::Grey,
        Feedback::Grey,
    ];
    assert!(is_consistent("saexx", "speed", &q));
    assert!(!is_consistent("seeex", "speed", &q));
}

#[test]
fn consistency_means_the_word_would_give_the_same_feedback() {
    // "aaxyz" against "bcadq": Yellow, Grey, Grey, Grey, Grey
    let p = evaluate("aaxyz", "bcadq");
    assert_eq!(
        p,
        [
            Feedback::Yellow,
            Feedback::Grey,
            Feedback::Grey,
            Feedback::Grey,
            Feedback::Grey
        ]
    );
    // "babcd" would make the second 'a' Green, so it cannot be the solution
    assert!(!is_consistent("babcd", "aaxyz", &p));
    assert!(is_consistent("bcadq", "aaxyz", &p));
    // words or guesses of other lengths never fit
    assert!(!is_consistent("bcadqq", "aaxyz", &p));
    assert!(!is_consistent("bcadq", "aaxy", &p));
}

#[test]
fn empty_history_keeps_every_word() {
    let list = words(&["crane", "stare", "slate"]);
    assert_eq!(filter(&list, &[]), list);
}

#[test]
fn filter_keeps_the_solution_and_only_consistent_words() {
    let list = load_words();
    let solution = "shire";
    let mut history = Vec::new();
    for g in ["crane", "moist", "shine"] {
        history.push((g.to_string(), evaluate(g, solution)));
        let kept = filter(&list, &history);
        assert!(kept.contains(&solution.to_string()));
        for w in &kept {
            assert!(list.contains(w));
            for (guess, p) in &history {
                assert!(is_consistent(w, guess, p));
            }
        }
        // keeps the word order of the list
        let positions: Vec<usize> =
            kept.iter().map(|w| list.iter().position(|x| x == w).unwrap()).collect();
        assert!(positions.windows(2).all(|w| w[0] < w[1]));
    }
}

#[test]
fn filtering_twice_is_filtering_by_both() {
    let list = load_words();
    let first = vec![("crane".to_string(), evaluate("crane", "ghost"))];
    let second = vec![("moist".to_string(), evaluate("moist", "ghost"))];
    let both: Vec<(String, Pattern)> = first.iter().chain(second.iter()).cloned().collect();
    assert_eq!(filter(&filter(&list, &first), &second), filter(&list, &both));
}

#[test]
fn parse_words_trims_lines_and_keeps_five_lowercase_letters() {
    let text = "crane\r\n  stare \n\tSLATE\nabcdef\nab cd\n\u{3000}shire\u{a0}\n\nmoist";
    assert_eq!(parse_words(text), words(&["crane", "stare", "shire", "moist"]));
    assert_eq!(parse_words(""), Vec::<String>::new());
    assert_eq!(parse_words("caf\u{e9}s\nlemon\n"), words(&["lemon"]));
}

#[test]
fn word_list_has_no_duplicates_and_known_words() {
    let list = load_words();
    let mut sorted = list.clone();
    sorted.sort();
    sorted.dedup();
    assert_eq!(sorted.len(), list.len());
    assert!(contains_word(&list, &"crane".to_string()));
    assert!(!contains_word(&list, &"zzzzz".to_string()));
}

#[test]
fn valid_words_are_five_lowercase_ascii_letters() {
    assert!(is_valid_word("crane"));
    assert!(!is_valid_word("Crane"));
    assert!(!is_valid_word("cran"));
    assert!(!is_valid_word("cranes"));
    assert!(!is_valid_word("cr4ne"));
    assert!(!is_valid_word("cran\u{e9}"));
}

#[test]
fn pattern_counts_partition_the_solutions() {
    let list = words(&["crane", "stare", "slate", "crane"]);
    let counts = pattern_counts("crane", &list);
    assert_eq!(counts.values().map(|&c| c as usize).sum::<usize>(), list.len());
    assert_eq!(counts[&0], 2);
    let stare = pattern_key(&evaluate("crane", "stare"));
    assert_eq!(counts[&stare], 1);
    assert!(counts.keys().all(|&k| k < 243));
    assert!(counts.values().all(|&c| c > 0));
    assert!(pattern_counts("crane", &[]).is_empty());
}

#[test]
fn pick_best_takes_the_first_largest_key_above_the_floor() {
    let list = words(&["aaaaa", "bbbbb", "ccccc", "ddddd"]);
    let fallback = "zzzzz".to_string();
    assert_eq!(pick_best(&list, &fallback, &[3, 7, 7, 1], 0), "bbbbb");
    assert_eq!(pick_best(&list, &fallback, &[3, 2, 2, 1], 5), "zzzzz");
    assert_eq!(pick_best(&list, &fallback, &[3, 6, 2, 1], 5), "bbbbb");
    assert_eq!(pick_best(&[], &fallback, &[], 0), "zzzzz");
    let solver = EntropySolver;
    assert_eq!(solver.pick_guess(&list[2..], &list, &[1, 9, 4, 9], 0), "bbbbb");
}

#[test]
fn entropy_solver_shortcuts() {
    let solver = EntropySolver;
    let all = words(&["aaaaa", "bbbbb", "ccccc"]);
    assert_eq!(solver.shortcut(&[], &all), Some("aaaaa".to_string()));
    assert_eq!(solver.shortcut(&[], &[]), Some(String::new()));
    assert_eq!(solver.shortcut(&all[1..], &all), Some("bbbbb".to_string()));
    assert_eq!(solver.shortcut(&all, &all), None);
    assert_eq!(shortlist_guess(&[]), Some(String::new()));
    assert_eq!(shortlist_guess(&all[2..]), Some("ccccc".to_string()));
    assert_eq!(shortlist_guess(&all), None);
}

#[test]
fn random_solver_on_no_candidates_is_empty() {
    let solver = RandomSolver;
    assert_eq!(solver.next_guess(&[], &words(&["crane"]), &[]), "");
    let one = words(&["slate"]);
    for _ in 0..20 {
        assert_eq!(solver.next_guess(&one, &one, &[]), "slate");
    }
}

#[test]
fn a_played_game_keeps_the_solution_until_it_is_found() {
    let list = load_words();
    let (mut state, action) = start_play(&list, 6);
    assert!(matches!(action, PlayAction::Guess));
    assert_eq!(state.remaining, list);
    let mut action = play_turn(&mut state, "crane".to_string(), "ghost");
    assert!(matches!(action, PlayAction::Guess));
    assert!(state.remaining.contains(&"ghost".to_string()));
    assert!(state.remaining.len() < list.len());
    assert_eq!(state.turn, 1);
    action = play_turn(&mut state, "moist".to_string(), "ghost");
    assert!(matches!(action, PlayAction::Guess));
    assert!(state.remaining.contains(&"ghost".to_string()));
    action = play_turn(&mut state, "ghost".to_string(), "ghost");
    assert!(matches!(action, PlayAction::Finish(Some(3))));
    assert_eq!(state.history.len(), 3);
    assert_eq!(state.history[2].1, [Feedback::Green; 5]);
}

#[test]
fn a_played_game_ends_at_the_guess_limit() {
    let list = words(&["crane", "stare", "slate"]);
    let (_, action) = start_play(&list, 0);
    assert!(matches!(action, PlayAction::Finish(None)));
    let (mut state, _) = start_play(&list, 1);
    let action = play_turn(&mut state, "slate".to_string(), "stare");
    assert!(matches!(action, PlayAction::Finish(None)));
    assert_eq!(state.remaining, words(&["stare"]));
}

#[test]
fn state_features_of_no_history_are_zero() {
    let f = state_features(&[]);
    assert_eq!(f.len(), STATE_DIM);
    assert!(f.iter().all(|&v| v == 0));
}

#[test]
fn state_features_of_one_guess() {
    // crane vs stare: c grey, r yellow, a green, n grey, e green
    let history = vec![("crane".to_string(), evaluate("crane", "stare"))];
    let f = state_features(&history);
    let letter = |c: char| (c as u8 - b'a') as usize;
    let mut expected = vec![0u32; STATE_DIM];
    expected[2 * 26 + letter('a')] = 1;
    expected[4 * 26 + letter('e')] = 1;
    expected[130 + 26 + letter('r')] = 1;
    expected[260 + letter('r')] = 1;
    expected[260 + letter('a')] = 1;
    expected[260 + letter('e')] = 1;
    expected[286 + letter('c')] = 1;
    expected[286 + letter('n')] = 1;
    assert_eq!(f, expected);
}

#[test]
fn state_features_use_the_first_green_and_the_most_copies_shown() {
    let history = vec![
        ("speed".to_string(), evaluate("speed", "steep")),
        ("sheep".to_string(), evaluate("sheep", "steep")),
    ];
    let f = state_features(&history);
    let letter = |c: char| (c as u8 - b'a') as usize;
    assert_eq!(f[0 * 26 + letter('s')], 1);
    assert_eq!(f[4 * 26 + letter('p')], 1);
    // 'e' is coloured twice in each guess: at least two copies are required
    assert_eq!(f[260 + letter('e')], 2);
    // 'd' and 'h' only ever grey
    assert_eq!(f[286 + letter('d')], 1);
    assert_eq!(f[286 + letter('h')], 1);
    assert_eq!(f[286 + letter('e')], 0);
}

#[test]
fn state_features_required_copies_take_the_largest_single_guess() {
    let history = vec![
        ("llama".to_string(), evaluate("llama", "crane")),
        ("stare".to_string(), evaluate("stare", "crane")),
    ];
    let f = state_features(&history);
    let letter = |c: char| (c as u8 - b'a') as usize;
    assert_eq!(f[260 + letter('a')], 1);
    assert_eq!(f[260 + letter('r')], 1);
    assert_eq!(f[260 + letter('e')], 1);
}

#[test]
fn state_features_read_short_guesses_and_characters_past_z() {
    // 'x' is Green at 0, '{' (past 'z') is Yellow at 1, 'a' Grey at 2; no characters at 3 and 4
    let history = vec![("x{a".to_string(), [Green, Yellow, Grey, Yellow, Grey])];
    assert!(is_encodable(&history));
    let f = state_features(&history);
    assert_eq!(f.len(), STATE_DIM);
    let letter = |c: char| (c as u8 - b'a') as usize;
    assert_eq!(f[0 * 26 + letter('x')], 1);
    assert_eq!(f.iter().take(130).sum::<u32>(), 1);
    // '{' reads as no letter, and the Yellow at 3 has no character
    assert_eq!(f.iter().skip(130).take(130).sum::<u32>(), 0);
    assert_eq!(f[260 + letter('x')], 1);
    assert_eq!(f.iter().skip(260).take(26).sum::<u32>(), 1);
    assert_eq!(f[286 + letter('a')], 1);
    assert_eq!(f.iter().skip(286).sum::<u32>(), 1);
}

#[test]
fn histories_the_encoder_cannot_read() {
    let grey = [Grey; 5];
    assert!(is_encodable(&[]));
    assert!(is_encodable(&[("crane".to_string(), grey)]));
    // longer than five characters
    assert!(!is_encodable(&[("cranes".to_string(), grey)]));
    // a character whose low byte lies below 'a'
    assert!(!is_encodable(&[("Crane".to_string(), grey)]));
    // the first Green at position 4 falls past the end of its guess
    assert!(!is_encodable(&[("cra".to_string(), [Grey, Grey, Grey, Grey, Green])]));
    // a later Green past the end is never read
    assert!(is_encodable(&[
        ("crane".to_string(), [Grey, Grey, Grey, Grey, Green]),
        ("cra".to_string(), [Grey, Grey, Grey, Grey, Green]),
    ]));
}

#[test]
fn word_features_are_one_hot_per_position() {
    let f = word_features("crane");
    assert_eq!(f.len(), WORD_DIM);
    assert_eq!(f.iter().sum::<u32>(), 5);
    assert_eq!(f[0 * 26 + 2], 1);
    assert_eq!(f[4 * 26 + 4], 1);
    let short = word_features("aB");
    assert_eq!(short.iter().sum::<u32>(), 1);
    assert_eq!(short[0], 1);
    assert_eq!(word_features("abcdefg").iter().sum::<u32>(), 5);
}

#[test]
fn pattern_renderings() {
    let p = evaluate("crane", "stare");
    assert_eq!(pattern_string(&p), "\u{2B1B}\u{1F7E8}\u{1F7E9}\u{2B1B}\u{1F7E9}");
    assert_eq!(pattern_code(&p), "_YG_G");
    let (coloured, emoji) = pattern_parts(&p, "crane");
    assert_eq!(emoji, pattern_string(&p));
    assert_eq!(
        coloured,
        "\x1b[37mc\x1b[0m \x1b[33mr\x1b[0m \x1b[32ma\x1b[0m \x1b[37mn\x1b[0m \x1b[32me\x1b[0m"
    );
    let (short, _) = pattern_parts(&p, "cr");
    assert_eq!(short, "\x1b[37mc\x1b[0m \x1b[33mr\x1b[0m");
}

#[test]
fn parse_pattern_reads_codes_and_reports_errors() {
    assert_eq!(
        parse_pattern("G.xXY"),
        Ok([
            Feedback::Green,
            Feedback::Grey,
            Feedback::Grey,
            Feedback::Grey,
            Feedback::Yellow
        ])
    );
    assert_eq!(parse_pattern("GGGG"), Err(PatternError::WrongLength(4)));
    assert_eq!(parse_pattern("GGGGGG"), Err(PatternError::WrongLength(6)));
    assert_eq!(parse_pattern("GZGQG"), Err(PatternError::InvalidChar('Z')));
    for p in all_patterns() {
        assert_eq!(parse_pattern(&pattern_code(&p)), Ok(p));
    }
}

#[test]
fn parse_history_reads_items_in_order() {
    let h = parse_history(r#"[{"guess":"crane","pattern":"G_Y__"},{"guess":"moist","pattern":"....Y"}]"#)
        .unwrap();
    assert_eq!(h.len(), 2);
    assert_eq!(h[0].0, "crane");
    assert_eq!(h[0].1, parse_pattern("G_Y__").unwrap());
    assert_eq!(h[1].0, "moist");
    assert_eq!(h[1].1[4], Feedback::Yellow);
    assert_eq!(parse_history("[]"), Ok(vec![]));
}

#[test]
fn parse_history_reports_the_first_fault() {
    assert!(matches!(parse_history("not json"), Err(HistoryError::Json(_))));
    assert!(matches!(parse_history(r#"{"guess":"crane"}"#), Err(HistoryError::Json(_))));
    assert_eq!(
        parse_history(r#"[{"pattern":"GGGGG"}]"#),
        Err(HistoryError::MissingGuess)
    );
    assert_eq!(
        parse_history(r#"[{"guess":"crane","pattern":5}]"#),
        Err(HistoryError::MissingPattern)
    );
    assert_eq!(
        parse_history(r#"[{"guess":"crane","pattern":"GGGZ"},{"pattern":"GGGGG"}]"#),
        Err(HistoryError::BadPattern(PatternError::WrongLength(4)))
    );
    assert_eq!(
        parse_history(r#"[{"guess":"crane","pattern":"GGQGG"}]"#),
        Err(HistoryError::BadPattern(PatternError::InvalidChar('Q')))
    );
}

#[test]
fn bench_stats_tally_outcomes() {
    let mut stats = BenchStats::new();
    stats.record(Some(3));
    stats.record(Some(7));
    stats.record(None);
    stats.record(Some(3));
    assert_eq!(stats.wins, 3);
    assert_eq!(stats.total_guesses, 13);
    assert_eq!(stats.distribution, [1, 0, 0, 2, 0, 0, 1]);
}

#[test]
fn game_allows_six_guesses() {
    assert_eq!(MAX_GUESSES, 6);
    let mut g = Game::new("pious".to_string());
    for i in 0..6 {
        assert!(!g.is_finished());
        g.guess("crane");
        assert_eq!(g.turns_used(), i + 1);
    }
    assert!(g.is_finished());
    assert!(!g.is_won());
}

#[test]
fn game_is_won_exactly_by_the_solution() {
    let mut g = Game::new("pious".to_string());
    assert_eq!(g.turns_used(), 0);
    let p = g.guess("crane");
    assert_eq!(p, evaluate("crane", "ghost"));
    assert!(!g.is_won());
    assert_eq!(g.history()[0].1, p);
    g.guess("pious");
    assert!(g.is_won());
    assert!(g.is_finished());
    assert_eq!(g.turns_used(), 2);
}
