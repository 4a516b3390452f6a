use engine::text::{chars_of, scan_run, string_of, trim_bounds, CharClass};

#[test]
fn chars_of_lists_the_characters() {
    assert_eq!(chars_of("aé\n"), vec!['a', 'é', '\n']);
    assert!(chars_of("").is_empty());
}

#[test]
fn string_of_copies_a_range() {
    let src = chars_of("hello world");
    assert_eq!(string_of(&src, 6, 11), "world");
    assert_eq!(string_of(&src, 3, 3), "");
    assert_eq!(string_of(&src, 0, 11), "hello world");
}

#[test]
fn scan_run_stops_at_the_first_character_outside_the_class() {
    let src = chars_of("abc1_ d}e");
    assert_eq!(scan_run(&src, 0, CharClass::Letter), 3);
    assert_eq!(scan_run(&src, 0, CharClass::Word), 5);
    assert_eq!(scan_run(&src, 0, CharClass::Pattern), 5);
    assert_eq!(scan_run(&src, 0, CharClass::Until('}')), 7);
    assert_eq!(scan_run(&src, 5, CharClass::Letter), 5);
    assert_eq!(scan_run(&src, 8, CharClass::Until('}')), 9);
    assert_eq!(scan_run(&src, 9, CharClass::Word), 9);
}

#[test]
fn classes_hold_the_right_characters() {
    assert!(CharClass::Letter.contains('a'));
    assert!(CharClass::Letter.contains('Ω'));
    assert!(!CharClass::Letter.contains('1'));
    assert!(!CharClass::Letter.contains('_'));
    assert!(CharClass::Word.contains('1'));
    assert!(CharClass::Word.contains('_'));
    assert!(!CharClass::Word.contains('-'));
    assert!(CharClass::Pattern.contains('}'));
    assert!(!CharClass::Pattern.contains('{'));
    assert!(!CharClass::Pattern.contains(' '));
    assert!(!CharClass::Pattern.contains('\t'));
    assert!(!CharClass::Pattern.contains('\r'));
    assert!(!CharClass::Pattern.contains('\n'));
    assert!(CharClass::Pattern.contains('\u{00A0}'));
    assert!(CharClass::Until('x').contains('y'));
    assert!(!CharClass::Until('x').contains('x'));
}

#[test]
fn trim_bounds_cuts_white_space_at_both_ends() {
    let src = chars_of("[  a b \n]");
    assert_eq!(trim_bounds(&src, 1, 8), (3, 6));
    assert_eq!(trim_bounds(&src, 3, 6), (3, 6));
    assert_eq!(trim_bounds(&src, 0, 9), (0, 9));
}

#[test]
fn trim_bounds_of_white_space_is_empty() {
    let src = chars_of("a \t\n b");
    assert_eq!(trim_bounds(&src, 1, 5), (5, 5));
    assert_eq!(trim_bounds(&src, 2, 2), (2, 2));
}
