use kiri::decode::{join_segments, wake_prompt};
use kiri::fuzzy::{edit_distance, fuzzy_match, match_phrases};
use kiri::text::{is_hallucination, is_hallucination_lowered};

fn chars(s: &str) -> Vec<char> {
    s.chars().collect()
}

#[test]
fn hallucination_denylist_ignores_case() {
    assert!(is_hallucination("Thank You."));
    assert!(is_hallucination("  YOU  "));
    assert!(is_hallucination("Thanks for watching!"));
    assert!(is_hallucination("[BLANK_AUDIO]"));
}

#[test]
fn hallucination_accepts_real_speech() {
    assert!(!is_hallucination("set a timer for five minutes"));
    assert!(!is_hallucination("ok"));
    assert!(!is_hallucination("thank you very much"));
}

#[test]
fn hallucination_structural_rules() {
    assert!(is_hallucination(""));
    assert!(is_hallucination("a"));
    assert!(is_hallucination(". . ."));
    assert!(is_hallucination("?!"));
    assert!(is_hallucination("[music playing]"));
    assert!(!is_hallucination("[music] playing"));
    assert!(is_hallucination(".\u{a0}."));
    assert!(is_hallucination("\u{2014}\u{3000}\u{2026}"));
    assert!(is_hallucination("\u{a0}Thank you.\u{2003}"));
}

#[test]
fn hallucination_lowered_is_case_sensitive() {
    assert!(is_hallucination_lowered("thank you."));
    assert!(!is_hallucination_lowered("Thank You."));
}

#[test]
fn fuzzy_substring_matches() {
    assert!(fuzzy_match("kiri", "hey kiri please"));
    assert!(fuzzy_match("Kiri", "Hey, KIRI! please"));
}

#[test]
fn fuzzy_one_substitution_matches() {
    assert!(fuzzy_match("kiri", "keri"));
    assert!(fuzzy_match("hey kiri", "hey keri what time is it"));
}

#[test]
fn fuzzy_two_substitutions_in_four_letters_do_not_match() {
    assert!(!fuzzy_match("kiri", "heri"));
}

#[test]
fn fuzzy_unrelated_sentence_does_not_match() {
    assert!(!fuzzy_match("hey kiri", "the weather is nice"));
    assert!(!fuzzy_match("kiri", "open the door"));
}

#[test]
fn fuzzy_scores_only_full_word_windows() {
    assert!(!fuzzy_match("abcdefgh ij", "abcdefgh"));
    assert!(fuzzy_match("abcdefgh ij", "xx abcdefgh ik"));
    assert!(!fuzzy_match("hey kiri", "kiri"));
}

#[test]
fn fuzzy_empty_phrase_never_matches() {
    assert!(!fuzzy_match("", "anything"));
    assert!(!fuzzy_match("...", "anything"));
}

#[test]
fn edit_distance_values() {
    assert_eq!(edit_distance(&chars("kitten"), &chars("sitting")), 3);
    assert_eq!(edit_distance(&chars(""), &chars("abc")), 3);
    assert_eq!(edit_distance(&chars("kiri"), &chars("heri")), 2);
    assert_eq!(edit_distance(&chars("kiri"), &chars("kiri")), 0);
}

#[test]
fn match_phrases_picks_first_match() {
    let phrases = vec!["hey kiri".to_string(), "private".to_string()];
    assert_eq!(match_phrases(&phrases, "Private, please."), Some(1));
    assert_eq!(match_phrases(&phrases, "hey kiri"), Some(0));
    assert_eq!(match_phrases(&phrases, "nothing here"), None);
}

#[test]
fn join_segments_trims_and_spaces() {
    let segs = vec![" Hello there ".to_string(), "".to_string(), "world. ".to_string()];
    assert_eq!(join_segments(&segs), "Hello there  world.");
    assert_eq!(join_segments(&vec![]), "");
    assert_eq!(join_segments(&vec!["  one  ".to_string()]), "one");
}

#[test]
fn wake_prompt_lists_phrases() {
    let phrases = vec!["hey kiri".to_string(), "private".to_string()];
    assert_eq!(wake_prompt(&phrases), "hey kiri, private");
    assert_eq!(wake_prompt(&vec![]), "");
}
