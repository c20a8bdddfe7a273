use chat_moderator::text::{
    char_is_whitespace, chars_of, drop_suffixes, drop_whitespace, skip_prefixes, skip_whitespace,
    window_ends_with, window_starts_with,
};

fn chars(s: &str) -> Vec<char> {
    s.chars().collect()
}

fn window(v: &Vec<char>, lo: usize, hi: usize) -> String {
    v[lo..hi].iter().collect()
}

#[test]
fn whitespace_is_what_the_standard_library_calls_whitespace() {
    let mut code: u32 = 0;
    while code <= 0x10FFFF {
        if let Some(c) = char::from_u32(code) {
            assert_eq!(char_is_whitespace(c), c.is_whitespace(), "U+{:04X}", code);
        }
        code += 1;
    }
}

#[test]
fn whitespace_examples() {
    for c in [' ', '\t', '\n', '\r', '\u{0B}', '\u{0C}', '\u{85}', '\u{A0}', '\u{1680}', '\u{2000}',
        '\u{200A}', '\u{2028}', '\u{2029}', '\u{202F}', '\u{205F}', '\u{3000}']
    {
        assert!(char_is_whitespace(c));
    }
    for c in ['a', '`', '{', '0', '\u{08}', '\u{0E}', '\u{1F}', '\u{200B}', '\u{FEFF}', '\u{180E}'] {
        assert!(!char_is_whitespace(c));
    }
}

#[test]
fn chars_of_keeps_every_character_in_order() {
    assert_eq!(chars_of(""), Vec::<char>::new());
    assert_eq!(chars_of("a b"), vec!['a', ' ', 'b']);
    assert_eq!(chars_of("\u{e9}\u{4e2d}\u{1F600}z"), vec!['\u{e9}', '\u{4e2d}', '\u{1F600}', 'z']);
}

#[test]
fn skip_whitespace_stops_at_the_first_other_character() {
    let v = chars(" \t\nab c ");
    assert_eq!(skip_whitespace(&v, 0, v.len()), 3);
    assert_eq!(skip_whitespace(&v, 3, v.len()), 3);
    assert_eq!(skip_whitespace(&v, 5, v.len()), 6);
    assert_eq!(skip_whitespace(&v, 0, 2), 2);
    assert_eq!(skip_whitespace(&v, 8, 8), 8);
}

#[test]
fn drop_whitespace_stops_at_the_last_other_character() {
    let v = chars(" ab c \u{3000}\n");
    assert_eq!(drop_whitespace(&v, 0, v.len()), 5);
    assert_eq!(drop_whitespace(&v, 0, 5), 5);
    assert_eq!(drop_whitespace(&v, 0, 1), 0);
    assert_eq!(drop_whitespace(&v, 5, v.len()), 5);
}

#[test]
fn a_window_of_whitespace_is_trimmed_to_nothing() {
    let v = chars("  \n ");
    let start = skip_whitespace(&v, 0, v.len());
    assert_eq!(start, 4);
    assert_eq!(drop_whitespace(&v, start, v.len()), 4);
}

#[test]
fn window_starts_with_looks_inside_the_window_only() {
    let v = chars("xx```json");
    let fence = chars("```");
    assert!(!window_starts_with(&v, 0, v.len(), &fence));
    assert!(window_starts_with(&v, 2, v.len(), &fence));
    assert!(window_starts_with(&v, 2, 5, &fence));
    assert!(!window_starts_with(&v, 2, 4, &fence));
    assert!(window_starts_with(&v, 2, 2, &Vec::new()));
    assert!(window_starts_with(&v, 2, v.len(), &chars("```json")));
    assert!(!window_starts_with(&v, 2, v.len(), &chars("```jsonx")));
}

#[test]
fn window_ends_with_looks_inside_the_window_only() {
    let v = chars("ab```xx");
    let fence = chars("```");
    assert!(!window_ends_with(&v, 0, v.len(), &fence));
    assert!(window_ends_with(&v, 0, 5, &fence));
    assert!(window_ends_with(&v, 2, 5, &fence));
    assert!(!window_ends_with(&v, 3, 5, &fence));
    assert!(window_ends_with(&v, 0, 0, &Vec::new()));
    assert!(!window_ends_with(&v, 0, 5, &chars("b``")));
}

#[test]
fn skip_prefixes_takes_every_repetition() {
    let fence = chars("```");
    let v = chars("`````````x```");
    assert_eq!(skip_prefixes(&v, 0, v.len(), &fence), 9);
    let v = chars("````x");
    assert_eq!(skip_prefixes(&v, 0, v.len(), &fence), 3);
    let v = chars("x```");
    assert_eq!(skip_prefixes(&v, 0, v.len(), &fence), 0);
    let v = chars("``````");
    assert_eq!(skip_prefixes(&v, 0, v.len(), &fence), 6);
    assert_eq!(skip_prefixes(&v, 0, 5, &fence), 3);
}

#[test]
fn drop_suffixes_takes_every_repetition() {
    let fence = chars("```");
    let v = chars("x`````````");
    assert_eq!(drop_suffixes(&v, 0, v.len(), &fence), 1);
    let v = chars("x````");
    assert_eq!(drop_suffixes(&v, 0, v.len(), &fence), 2);
    let v = chars("```x");
    assert_eq!(drop_suffixes(&v, 0, v.len(), &fence), 4);
    let v = chars("``````");
    assert_eq!(drop_suffixes(&v, 0, v.len(), &fence), 0);
    assert_eq!(drop_suffixes(&v, 1, v.len(), &fence), 3);
    assert_eq!(window(&v, 1, 3), "``");
}

#[test]
fn an_empty_marker_takes_nothing_off() {
    let v = chars("abc");
    assert_eq!(skip_prefixes(&v, 0, v.len(), &Vec::new()), 0);
    assert_eq!(drop_suffixes(&v, 0, v.len(), &Vec::new()), 3);
}

#[test]
fn windows_agree_with_the_standard_library() {
    let samples = ["", " ", "abc", "  abc  ", "\n\t a b \r\n", "\u{A0}x\u{2003}", "```a```", "``````a"];
    for s in samples {
        let v = chars(s);
        let start = skip_whitespace(&v, 0, v.len());
        let end = drop_whitespace(&v, start, v.len());
        assert_eq!(window(&v, start, end), s.trim());
        assert_eq!(window(&v, start, v.len()), s.trim_start());
        let fence = chars("```");
        let a = skip_prefixes(&v, 0, v.len(), &fence);
        assert_eq!(window(&v, a, v.len()), s.trim_start_matches("```"));
        let b = drop_suffixes(&v, 0, v.len(), &fence);
        assert_eq!(window(&v, 0, b), s.trim_end_matches("```"));
    }
}
