use spellcheck::{tokenize, SpellChecker};

const CORPUS: &str = "the quick brown fox the the fox";

fn probability(c: &SpellChecker, word: &str) -> f64 {
    if c.total() == 0 {
        0.0
    } else {
        c.count(word) as f64 / c.total() as f64
    }
}

#[test]
fn scenario_counts_and_total() {
    let c = SpellChecker::from_text(CORPUS);
    assert_eq!(c.count("the"), 3);
    assert_eq!(c.count("fox"), 2);
    assert_eq!(c.count("quick"), 1);
    assert_eq!(c.total(), 7);
    assert!((probability(&c, "the") - 3.0 / 7.0).abs() < 1e-12);
}

#[test]
fn scenario_transposition_is_corrected() {
    let c = SpellChecker::from_text(CORPUS);
    assert_eq!(c.correction("teh"), "the");
}

#[test]
fn scenario_far_word_is_unchanged() {
    let c = SpellChecker::from_text(CORPUS);
    assert_eq!(c.correction("zzzzz"), "zzzzz");
}

#[test]
fn known_words_are_kept() {
    let c = SpellChecker::from_text(CORPUS);
    for w in ["the", "quick", "brown", "fox"] {
        assert_eq!(c.correction(w), w);
    }
}

#[test]
fn probabilities_lie_in_unit_interval_and_sum_to_one() {
    let c = SpellChecker::from_text(CORPUS);
    let vocabulary = ["the", "quick", "brown", "fox"];
    let mut sum = 0.0;
    for w in vocabulary {
        let p = probability(&c, w);
        assert!((0.0..=1.0).contains(&p));
        sum += p;
    }
    assert!((sum - 1.0).abs() < 1e-9);
    let counted: usize = vocabulary.iter().map(|w| c.count(w)).sum();
    assert_eq!(counted, c.total());
}

#[test]
fn unseen_word_has_probability_zero() {
    let c = SpellChecker::from_text(CORPUS);
    assert_eq!(c.count("dog"), 0);
    assert!(!c.is_known("dog"));
    assert_eq!(probability(&c, "dog"), 0.0);
}

#[test]
fn empty_corpus() {
    let c = SpellChecker::from_text("");
    assert_eq!(c.total(), 0);
    assert_eq!(c.count("the"), 0);
    assert_eq!(probability(&c, "the"), 0.0);
    assert_eq!(c.correction("teh"), "teh");
    assert_eq!(c.correction("a"), "a");
    assert_eq!(c.correction(""), "");
}

#[test]
fn empty_query_is_returned_unchanged() {
    let c = SpellChecker::from_text(CORPUS);
    assert_eq!(c.correction(""), "");
}

#[test]
fn single_edit_count_for_the() {
    let c = SpellChecker::from_text(CORPUS);
    let e = c.edits1("the");
    assert_eq!(e.len(), 187);
    assert_eq!(&e[0..3], &["he", "te", "th"]);
    assert_eq!(&e[3..5], &["hte", "teh"]);
    assert_eq!(e[5], "ahe");
    assert_eq!(e[5 + 25], "zhe");
    assert_eq!(e[5 + 78], "athe");
    assert_eq!(e[186], "thez");
}

#[test]
fn single_edits_of_empty_word_are_the_letters() {
    let c = SpellChecker::from_text(CORPUS);
    let e = c.edits1("");
    assert_eq!(e.len(), 26);
    assert_eq!(e[0], "a");
    assert_eq!(e[25], "z");
}

#[test]
fn single_edits_work_on_characters() {
    let c = SpellChecker::from_text(CORPUS);
    let e = c.edits1("é");
    assert_eq!(e.len(), 79);
    assert_eq!(e[0], "");
    assert_eq!(e[1], "a");
    assert_eq!(e[27], "aé");
    assert_eq!(e[78], "éz");
}

#[test]
fn correction_is_idempotent() {
    let c = SpellChecker::from_text(CORPUS);
    for w in ["teh", "quikc", "brwn", "foxx", "zzzzz", "thee"] {
        let once = c.correction(w);
        if c.is_known(&once) {
            assert_eq!(c.correction(&once), once);
        }
    }
}

#[test]
fn second_tier_reaches_two_edits() {
    let c = SpellChecker::from_text("hello world");
    assert_eq!(c.correction("hxllx"), "hello");
    assert_eq!(c.correction("wrd"), "world");
}

#[test]
fn first_tier_wins_over_second() {
    let c = SpellChecker::from_text("cart cat cat cat cat");
    // "cxrt" is one replace from "cart", two edits from the more frequent "cat".
    assert_eq!(c.correction("cxrt"), "cart");
}

#[test]
fn higher_count_wins() {
    let c = SpellChecker::from_text("bat cat cat");
    assert_eq!(c.correction("xat"), "cat");
}

#[test]
fn tie_goes_to_first_candidate() {
    let c = SpellChecker::from_text("cat bat");
    assert_eq!(c.correction("xat"), "bat");
    let c = SpellChecker::from_text("bat cat");
    assert_eq!(c.correction("xat"), "bat");
}

#[test]
fn candidates_by_tier() {
    let c = SpellChecker::from_text("hello world hello");
    assert_eq!(c.candidates("hello"), vec!["hello"]);
    assert_eq!(c.candidates("helo"), vec!["hello", "hello"]);
    assert_eq!(c.candidates("qqqqqqq"), vec!["qqqqqqq"]);
    let two = c.candidates("hxllx");
    assert!(!two.is_empty());
    assert!(two.iter().all(|w| w == "hello"));
}

#[test]
fn known_keeps_order_and_duplicates() {
    let c = SpellChecker::from_text(CORPUS);
    let words = vec![
        "fox".to_string(),
        "dog".to_string(),
        "the".to_string(),
        "fox".to_string(),
    ];
    assert_eq!(c.known(words), vec!["fox", "the", "fox"]);
}

#[test]
fn tokenize_lowercases_and_splits_on_non_word_characters() {
    assert_eq!(
        tokenize("Hello, World! foo_bar 42\nThe-END"),
        vec!["hello", "world", "foo_bar", "42", "the", "end"]
    );
    assert!(tokenize("  ,.; ").is_empty());
}

#[test]
fn counting_is_case_insensitive() {
    let c = SpellChecker::from_text("The THE the\nthe");
    assert_eq!(c.count("the"), 4);
    assert_eq!(c.count("The"), 0);
    assert_eq!(c.total(), 4);
}

#[test]
fn from_tokens_counts_each_token() {
    let tokens = vec!["a".to_string(), "b".to_string(), "a".to_string()];
    let c = SpellChecker::from_tokens(&tokens);
    assert_eq!(c.count("a"), 2);
    assert_eq!(c.count("b"), 1);
    assert_eq!(c.total(), 3);
    assert!(c.is_known("b"));
}
