use ptyshell::text::{
    case_key, char_is_whitespace, chars_of, has_prefix_ignoring_case, skip_token, skip_whitespace,
    skip_whitespace_back, string_of, string_of_range, trim_bounds,
};

#[test]
fn whitespace_is_what_std_calls_whitespace() {
    let mut code: u32 = 0;
    while code <= 0x3100 {
        if let Some(c) = char::from_u32(code) {
            assert_eq!(char_is_whitespace(c), c.is_whitespace());
        }
        code += 1;
    }
    assert!(!char_is_whitespace('\u{feff}'));
    assert!(!char_is_whitespace('\u{200b}'));
}

#[test]
fn case_is_folded_as_ascii_folds_it() {
    assert_eq!(case_key('A'), 'a' as u32);
    assert_eq!(case_key('Z'), 'z' as u32);
    assert_eq!(case_key('a'), 'a' as u32);
    assert_eq!(case_key('@'), '@' as u32);
    assert_eq!(case_key('['), '[' as u32);
    assert_eq!(case_key('É'), 'É' as u32);
    let mut code: u32 = 0;
    while code < 128 {
        let c = char::from_u32(code).unwrap();
        assert_eq!(case_key(c), c.to_ascii_lowercase() as u32);
        code += 1;
    }
}

#[test]
fn strings_and_characters_convert_both_ways() {
    assert_eq!(chars_of("añb"), vec!['a', 'ñ', 'b']);
    assert_eq!(chars_of(""), Vec::<char>::new());
    assert_eq!(string_of(&vec!['a', 'ñ', 'b']), "añb");
    assert_eq!(string_of(&vec![]), "");
    assert_eq!(string_of_range(&vec!['a', 'b', 'c', 'd'], 1, 3), "bc");
    assert_eq!(string_of_range(&vec!['a', 'b', 'c', 'd'], 2, 2), "");
}

#[test]
fn prefixes_match_without_regard_to_case() {
    assert!(has_prefix_ignoring_case(&chars_of("Makefile"), &chars_of("make")));
    assert!(has_prefix_ignoring_case(&chars_of("makefile"), &chars_of("MAKE")));
    assert!(has_prefix_ignoring_case(&chars_of("x"), &chars_of("")));
    assert!(!has_prefix_ignoring_case(&chars_of("ma"), &chars_of("make")));
    assert!(!has_prefix_ignoring_case(&chars_of("mbke"), &chars_of("ma")));
}

#[test]
fn scanning_stops_where_the_kind_of_character_changes() {
    let v = chars_of("  ab  cd ");
    assert_eq!(skip_whitespace(&v, 0, v.len()), 2);
    assert_eq!(skip_token(&v, 2, v.len()), 4);
    assert_eq!(skip_whitespace(&v, 4, v.len()), 6);
    assert_eq!(skip_token(&v, 6, v.len()), 8);
    assert_eq!(skip_whitespace(&v, 8, v.len()), 9);
    assert_eq!(skip_whitespace_back(&v, 0, v.len()), 8);
    assert_eq!(skip_whitespace_back(&v, 0, 6), 4);
    assert_eq!(skip_whitespace(&v, 0, 1), 1);
}

#[test]
fn trimming_agrees_with_std() {
    for s in ["", " ", "a", " a", "a ", "  a b  ", "\t\u{a0}x y\u{2029}\n", "   "] {
        let v = chars_of(s);
        let (start, end) = trim_bounds(&v);
        assert_eq!(string_of_range(&v, start, end), s.trim());
    }
}
