use rustile::command::{split_command, split_words};

#[test]
fn program_and_arguments() {
    let (p, args) = split_command("firefox --private").unwrap();
    assert_eq!(p, "firefox");
    assert_eq!(args, vec!["--private"]);
}

#[test]
fn runs_of_white_space_separate_words() {
    let (p, args) = split_command("  rofi\t-show \n drun  ").unwrap();
    assert_eq!(p, "rofi");
    assert_eq!(args, vec!["-show", "drun"]);
}

#[test]
fn no_words_no_command() {
    assert!(split_command("").is_none());
    assert!(split_command(" \t\u{3000} ").is_none());
}

#[test]
fn word_splitting_matches_std() {
    for s in ["a b", "  x", "é  ü\u{2003}z", "one", "", "a\u{a0}b c"] {
        let expected: Vec<String> = s.split_whitespace().map(|w| w.to_string()).collect();
        assert_eq!(split_words(s), expected);
    }
}

#[test]
fn every_white_space_character_separates_words() {
    let spaces = [
        '\t', '\n', '\u{0b}', '\u{0c}', '\r', ' ', '\u{85}', '\u{a0}', '\u{1680}', '\u{2000}',
        '\u{2005}', '\u{200a}', '\u{2028}', '\u{2029}', '\u{202f}', '\u{205f}', '\u{3000}',
    ];
    for c in spaces {
        assert!(c.is_whitespace());
        let s = format!("a{}b", c);
        assert_eq!(split_words(&s), vec!["a".to_string(), "b".to_string()]);
    }
    for c in ['\u{200b}', '\u{1f}', '\u{180e}', 'x'] {
        assert!(!c.is_whitespace());
        let s = format!("a{}b", c);
        assert_eq!(split_words(&s).len(), 1);
    }
}
