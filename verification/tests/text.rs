use voxcpm_rs::text::{
    clean_token, extract_last_word, is_abbreviation, is_chinese_char, is_multichar_chinese, mask_token_ids,
    should_split_period, split_sentences,
};

fn strings(v: &[&str]) -> Vec<String> {
    v.iter().map(|s| s.to_string()).collect()
}

#[test]
fn splits_at_sentence_ends() {
    assert_eq!(split_sentences("Hello world. Next one!"), strings(&["Hello world.", "Next one!"]));
    assert_eq!(split_sentences("Why? Because!"), strings(&["Why?", "Because!"]));
    assert_eq!(split_sentences("A\nB"), strings(&["A", "B"]));
}

#[test]
fn keeps_abbreviations_numbers_and_ellipses() {
    assert_eq!(split_sentences("Mr. Smith went home."), strings(&["Mr. Smith went home."]));
    assert_eq!(split_sentences("Pi is 3.14 ok."), strings(&["Pi is 3.14 ok."]));
    assert_eq!(split_sentences("Wait... what?"), strings(&["Wait... what?"]));
    assert_eq!(split_sentences("U.S. is big."), strings(&["U.S.", "is big."]));
}

#[test]
fn drops_blank_pieces() {
    assert_eq!(split_sentences(""), Vec::<String>::new());
    assert_eq!(split_sentences("   "), Vec::<String>::new());
    assert_eq!(split_sentences("!!  ?"), strings(&["!", "!", "?"]));
    assert_eq!(split_sentences("  trailing text  "), strings(&["trailing text"]));
}

#[test]
fn split_keeps_every_visible_character() {
    let text = "One. Two!  Three?\nFour";
    let joined: String = split_sentences(text).concat();
    let visible: String = text.chars().filter(|c| !c.is_whitespace()).collect();
    let joined_visible: String = joined.chars().filter(|c| !c.is_whitespace()).collect();
    assert_eq!(joined_visible, visible);
}

#[test]
fn period_decisions() {
    assert!(!should_split_period("3.", Some('3'), Some('1')));
    assert!(!should_split_period("Hi.", Some('i'), Some('x')));
    assert!(!should_split_period("Dr.", Some('r'), Some(' ')));
    assert!(!should_split_period("A.", Some('A'), Some('b')));
    assert!(should_split_period("Done.", Some('e'), None));
    assert!(should_split_period("...", Some('.'), Some(' ')));
}

#[test]
fn last_words_and_abbreviations() {
    assert_eq!(extract_last_word("Hello, world"), "world");
    assert_eq!(extract_last_word("see fig. "), "fig");
    assert_eq!(extract_last_word("!!"), "");
    assert!(is_abbreviation("etc"));
    assert!(is_abbreviation("mt"));
    assert!(!is_abbreviation("Mr"));
    assert!(!is_abbreviation("hello"));
}

#[test]
fn chinese_tokens() {
    assert!(is_chinese_char('中'));
    assert!(!is_chinese_char('a'));
    assert!(is_multichar_chinese("中文"));
    assert!(!is_multichar_chinese("中"));
    assert!(!is_multichar_chinese("中a"));
    assert_eq!(clean_token("\u{2581}中文"), "中文");
}

#[test]
fn masked_ids_spell_out_chinese() {
    let tokens = strings(&["\u{2581}hi", "中文", "好的"]);
    let ids = vec![10, 20, 30];
    let char_ids = vec![vec![None, None], vec![Some(1), Some(2)], vec![Some(3), None]];
    // "中文" is spelled out; "好的" has an unknown character: its found prefix, then its id.
    assert_eq!(mask_token_ids(&tokens, &ids, &char_ids), vec![10, 1, 2, 3, 30]);
}
