use passphrase::generate::build_passphrase;
use passphrase::generate::passphrase_gen;
use passphrase::generate::phrase;
use passphrase::generate::phrase_params;
use passphrase::generate::Generator;
use passphrase::text::capitalize;
use passphrase::wordlist::Wordlist;
use passphrase::DEFAULT_DIGITS;
use passphrase::DEFAULT_LENGTH;

const SAMPLE: [&str; 6] = ["apple", "banana", "cherry", "delta", "echo", "foxtrot"];

fn owned(list: &[&str]) -> Vec<String> {
    list.iter().map(|s| s.to_string()).collect()
}

fn sample_wordlist() -> Wordlist {
    Wordlist::new(owned(&SAMPLE)).expect("sample wordlist is valid")
}

fn sample_generator() -> Generator {
    Generator::new(sample_wordlist())
}

/// Checks the structure every passphrase must have: `expect_words`
/// hyphen-separated tokens, each a capitalized wordlist entry, followed by
/// exactly `expect_digits` ASCII digits.
fn check_structure(p: &str, expect_words: usize, expect_digits: usize) {
    let chars: Vec<char> = p.chars().collect();
    let mut k = chars.len();
    while k > 0 && chars[k - 1].is_ascii_digit() {
        k -= 1;
    }
    let word_part: String = chars[..k].iter().collect();
    let digit_part: String = chars[k..].iter().collect();
    assert_eq!(digit_part.chars().count(), expect_digits, "digit portion of {:?}", p);
    assert!(digit_part.chars().all(|c| c.is_ascii_digit()));
    let tokens: Vec<&str> = word_part.split('-').collect();
    assert_eq!(tokens.len(), expect_words, "word tokens of {:?}", p);
    let caps: Vec<String> = SAMPLE.iter().map(|w| capitalize(w)).collect();
    for t in tokens {
        assert!(caps.iter().any(|c| c == t), "token {:?} of {:?} is no capitalized entry", t, p);
    }
}

#[test]
fn capitalize_empty() {
    assert_eq!(capitalize(""), "");
}

#[test]
fn capitalize_ascii() {
    assert_eq!(capitalize("abc"), "Abc");
}

#[test]
fn capitalize_single_letter() {
    assert_eq!(capitalize("q"), "Q");
}

#[test]
fn capitalize_multibyte() {
    let r = capitalize("é");
    assert_eq!(r, "É");
    assert_eq!(r.chars().count(), 1);
}

#[test]
fn capitalize_expanding_mapping() {
    assert_eq!(capitalize("ßeta"), "SSeta");
}

#[test]
fn capitalize_only_first_character() {
    assert_eq!(capitalize("abC-dE9"), "AbC-dE9");
}

#[test]
fn wordlist_accepts_valid_entries() {
    let wl = Wordlist::new(owned(&SAMPLE)).expect("valid");
    assert_eq!(wl.len(), 6);
    assert_eq!(wl.word_at(2).as_str(), "cherry");
}

#[test]
fn wordlist_rejects_empty_list() {
    assert!(Wordlist::new(Vec::new()).is_none());
}

#[test]
fn wordlist_rejects_empty_entry() {
    assert!(Wordlist::new(owned(&["apple", ""])).is_none());
}

#[test]
fn wordlist_rejects_uppercase_entry() {
    assert!(Wordlist::new(owned(&["apple", "Banana"])).is_none());
}

#[test]
fn wordlist_rejects_hyphenated_entry() {
    assert!(Wordlist::new(owned(&["ab-cd"])).is_none());
}

#[test]
fn wordlist_rejects_digits_in_entry() {
    assert!(Wordlist::new(owned(&["apple2"])).is_none());
}

#[test]
fn wordlist_rejects_non_ascii_entry() {
    assert!(Wordlist::new(owned(&["héllo"])).is_none());
}

#[test]
fn build_joins_capitalized_words_with_hyphens() {
    let wl = sample_wordlist();
    let p = build_passphrase(&wl, &vec![0, 1], &vec![7]);
    assert_eq!(p, "Apple-Banana7");
}

#[test]
fn build_single_word_has_no_hyphen() {
    let wl = sample_wordlist();
    let p = build_passphrase(&wl, &vec![2], &Vec::new());
    assert_eq!(p, "Cherry");
}

#[test]
fn build_appends_digits_in_draw_order() {
    let wl = sample_wordlist();
    let p = build_passphrase(&wl, &vec![0], &vec![1, 2, 3]);
    assert_eq!(p, "Apple123");
}

#[test]
fn build_repeats_are_allowed() {
    let wl = sample_wordlist();
    let p = build_passphrase(&wl, &vec![4, 4, 4], &Vec::new());
    assert_eq!(p, "Echo-Echo-Echo");
}

#[test]
fn generated_word_counts_match_request() {
    let mut g = sample_generator();
    for w in 1..=6u8 {
        let p = passphrase_gen(&mut g, w, 0);
        check_structure(&p, w as usize, 0);
    }
}

#[test]
fn generated_digit_count_matches_request() {
    let mut g = sample_generator();
    let p = passphrase_gen(&mut g, 2, 3);
    check_structure(&p, 2, 3);
    let long = passphrase_gen(&mut g, 1, 30);
    check_structure(&long, 1, 30);
}

#[test]
fn zero_words_still_yields_one_word() {
    let mut g = sample_generator();
    let p = passphrase_gen(&mut g, 0, 0);
    assert!(!p.is_empty());
    check_structure(&p, 1, 0);
}

#[test]
fn phrase_uses_the_defaults() {
    let mut g = sample_generator();
    let p = phrase(&mut g);
    check_structure(&p, 4, 0);
}

#[test]
fn phrase_params_uses_given_values() {
    let mut g = sample_generator();
    let p = phrase_params(&mut g, Some(2), Some(3));
    check_structure(&p, 2, 3);
}

#[test]
fn phrase_params_falls_back_to_defaults() {
    let mut g = sample_generator();
    let p = phrase_params(&mut g, None, None);
    check_structure(&p, 4, 0);
    let q = phrase_params(&mut g, Some(2), None);
    check_structure(&q, 2, 0);
    let r = phrase_params(&mut g, None, Some(5));
    check_structure(&r, 4, 5);
}

#[test]
fn defaults_are_four_words_and_no_digits() {
    assert_eq!(DEFAULT_LENGTH, 4);
    assert_eq!(DEFAULT_DIGITS, 0);
}

#[test]
fn repeated_calls_each_yield_valid_structure() {
    let mut g = sample_generator();
    for _ in 0..100 {
        let p = phrase_params(&mut g, Some(3), Some(2));
        check_structure(&p, 3, 2);
    }
}
