use rusttransformer::dataset::{clean_review, pad_review, prepare_review, Vocabulary};

fn vocab(words: &[&str]) -> Vocabulary {
    Vocabulary::from_words(words.iter().map(|w| w.to_string()).collect())
}

#[test]
fn clean_keeps_known_words_lowercased() {
    let v = vocab(&["i", "love", "this", "movie", "it's", "so", "good"]);
    let cleaned = clean_review("I love this movie! It's so good.", &v);
    assert_eq!(cleaned, "i love this movie it's so good ");
}

#[test]
fn clean_drops_unknown_words() {
    let v = vocab(&["good", "movie"]);
    let cleaned = clean_review("a thoroughly good movie indeed", &v);
    assert_eq!(cleaned, "good movie ");
}

#[test]
fn clean_strikes_br_tags() {
    let v = vocab(&["good", "movie"]);
    let cleaned = clean_review("good<br />movie", &v);
    assert_eq!(cleaned, "good movie ");
}

#[test]
fn clean_strikes_adjacent_br_tags() {
    let v = vocab(&["good", "movie", "goodmovie"]);
    let cleaned = clean_review("good<br<brmovie", &v);
    assert_eq!(cleaned, "goodmovie ");
}

#[test]
fn clean_of_empty_text_is_empty() {
    let v = vocab(&["good"]);
    assert_eq!(clean_review("", &v), "");
}

#[test]
fn apostrophe_does_not_start_a_word() {
    let v = vocab(&["hello", "'hello"]);
    let cleaned = clean_review("'hello", &v);
    assert_eq!(cleaned, "hello ");
}

#[test]
fn apostrophe_stays_inside_a_word() {
    let v = vocab(&["it's", "its"]);
    let cleaned = clean_review("It's", &v);
    assert_eq!(cleaned, "it's ");
}

#[test]
fn uppercase_words_match_lowercase_vocabulary() {
    let v = vocab(&["good"]);
    assert_eq!(clean_review("GOOD", &v), "good ");
}

#[test]
fn pad_fills_short_reviews_with_empty_words() {
    let padded = pad_review("a b c", 5);
    assert_eq!(padded, vec!["a", "b", "c", "", ""]);
}

#[test]
fn pad_truncates_long_reviews() {
    let padded = pad_review("a b c", 2);
    assert_eq!(padded, vec!["a", "b"]);
}

#[test]
fn pad_splits_on_runs_of_whitespace() {
    let padded = pad_review("  a \t b\n", 3);
    assert_eq!(padded, vec!["a", "b", ""]);
}

#[test]
fn prepare_review_reads_positive_label() {
    let v = vocab(&["good"]);
    let example = prepare_review("good", &"positive".to_string(), 2, &v);
    assert!(example.positive);
    assert_eq!(example.review, vec!["good", ""]);
}

#[test]
fn prepare_review_reads_other_labels_as_negative() {
    let v = vocab(&["bad"]);
    let example = prepare_review("bad", &"negative".to_string(), 2, &v);
    assert!(!example.positive);
    assert_eq!(example.review, vec!["bad", ""]);
}

#[test]
fn vocabulary_knows_exactly_its_words() {
    let v = vocab(&["good", "movie"]);
    assert!(v.contains(&"good".to_string()));
    assert!(v.contains(&"movie".to_string()));
    assert!(!v.contains(&"bad".to_string()));
    assert!(!v.contains(&"".to_string()));
}
