use rustalk::numeral::{decimal_string, hex_of_bytes, parse_number};
use rustalk::media::codec::Codec;
use rustalk::order::{move_item, sort_stable};
use rustalk::text::{
    append_chars, append_str, chars_eq, chars_eq_ignore_case, chars_of, find_first, find_text,
    has_text, matches_at, scan_class, scan_class_back, slice_of, split_chars, split_lines,
    split_words, str_eq, str_eq_ignore_case, string_of, string_of_range, trim_chars, CharClass,
};

fn chars(s: &str) -> Vec<char> {
    s.chars().collect()
}

fn strings(parts: Vec<Vec<char>>) -> Vec<String> {
    parts.iter().map(|p| p.iter().collect()).collect()
}

#[test]
fn conversions() {
    assert_eq!(chars_of("a\u{e9}\u{1f600}"), vec!['a', '\u{e9}', '\u{1f600}']);
    assert_eq!(chars_of(""), Vec::<char>::new());
    assert_eq!(string_of(&chars("h\u{e9}llo")), "h\u{e9}llo");
    assert_eq!(string_of_range(&chars("hello"), 1, 3), "el");
    assert_eq!(string_of_range(&chars("hello"), 5, 5), "");
    assert_eq!(slice_of(&chars("hello"), 0, 5), chars("hello"));
    let mut out = chars("ab");
    append_chars(&mut out, &chars("cd"));
    append_str(&mut out, "ef");
    assert_eq!(out, chars("abcdef"));
    assert!(chars_eq(&chars("x"), &chars("x")));
    assert!(!chars_eq(&chars("x"), &chars("y")));
    assert!(!chars_eq(&chars("x"), &chars("xx")));
    assert!(str_eq("", ""));
    assert!(!str_eq("a", "A"));
    assert!(str_eq_ignore_case("Call-ID", "CALL-id"));
    assert!(!str_eq_ignore_case("Call-ID", "Call_ID"));
    // only ASCII letters fold
    assert!(!str_eq_ignore_case("\u{c9}", "\u{e9}"));
    assert!(chars_eq_ignore_case(&chars("[Z]"), &chars("[z]")));
    assert!(!chars_eq_ignore_case(&chars("@"), &chars("`")));
}

#[test]
fn classes_and_scans() {
    for c in [' ', '\t', '\n', '\r', '\u{b}', '\u{c}', '\u{85}', '\u{a0}', '\u{1680}', '\u{2000}', '\u{200a}', '\u{2028}', '\u{2029}', '\u{202f}', '\u{205f}', '\u{3000}'] {
        assert!(CharClass::Space.contains(c), "{:?}", c);
        assert!(c.is_whitespace());
        assert!(!CharClass::NonSpace.contains(c));
    }
    for c in ['a', '0', '\u{200b}', '\u{180e}', '\u{feff}', '\u{1c}'] {
        assert!(!CharClass::Space.contains(c), "{:?}", c);
        assert!(!c.is_whitespace());
    }
    assert!(CharClass::Blank.contains(' ') && CharClass::Blank.contains('\t'));
    assert!(!CharClass::Blank.contains('\n'));
    assert!(CharClass::Digit.contains('0') && CharClass::Digit.contains('9'));
    assert!(!CharClass::Digit.contains('/') && !CharClass::Digit.contains(':'));
    assert!(!CharClass::Digit.contains('\u{661}'));
    for c in ['a', 'z', 'A', 'Z', '0', '9', '-'] {
        assert!(CharClass::Name.contains(c));
    }
    for c in ['@', '[', '`', '{', '.', '_', ':', ' ', '\u{e9}'] {
        assert!(!CharClass::Name.contains(c));
    }
    assert!(CharClass::Host.contains('.') && !CharClass::Host.contains('_'));
    assert!(CharClass::User.contains('_') && !CharClass::User.contains('@'));
    for c in "-_.!~*'()%+[]/:&$aZ9".chars() {
        assert!(CharClass::Param.contains(c), "{:?}", c);
    }
    for c in [';', '=', ' ', '?', '@', ',', '"', '\r'] {
        assert!(!CharClass::Param.contains(c), "{:?}", c);
    }
    assert!(CharClass::Except(';').contains('a') && !CharClass::Except(';').contains(';'));

    let v = chars("  ab  cd ");
    assert_eq!(scan_class(&v, &CharClass::Space, 0), 2);
    assert_eq!(scan_class(&v, &CharClass::NonSpace, 2), 4);
    assert_eq!(scan_class(&v, &CharClass::NonSpace, 0), 0);
    assert_eq!(scan_class(&v, &CharClass::Space, 8), 9);
    assert_eq!(scan_class(&v, &CharClass::Space, 9), 9);
    assert_eq!(scan_class_back(&v, &CharClass::Space, 0, 9), 8);
    assert_eq!(scan_class_back(&v, &CharClass::Space, 8, 9), 8);
    assert_eq!(scan_class_back(&v, &CharClass::NonSpace, 0, 8), 6);
    assert_eq!(scan_class_back(&chars("   "), &CharClass::Space, 1, 3), 1);
}

#[test]
fn trimming_and_splitting() {
    assert_eq!(string_of(&trim_chars(&chars("  a b \r\n"))), "a b");
    assert_eq!(string_of(&trim_chars(&chars(" \u{a0}\t "))), "");
    assert_eq!(string_of(&trim_chars(&chars(""))), "");
    assert_eq!(string_of(&trim_chars(&chars("x"))), "x");
    for s in ["", " a  b ", "\u{3000}x\u{2028}", "\t\n"] {
        assert_eq!(string_of(&trim_chars(&chars(s))), s.trim());
        let words: Vec<String> = s.split_whitespace().map(|w| w.to_string()).collect();
        assert_eq!(strings(split_words(&chars(s))), words);
    }
    assert_eq!(strings(split_words(&chars("  one two\tthree\n"))), vec!["one", "two", "three"]);
    for s in ["", ",", "a", "a,b", ",a,,b,", "a,b,c"] {
        let parts: Vec<String> = s.split(',').map(|p| p.to_string()).collect();
        assert_eq!(strings(split_chars(&chars(s), ',')), parts, "{:?}", s);
    }
    for s in ["", "\n", "a", "a\n", "a\r\n", "a\r", "a\nb", "a\r\nb\r\n", "\r\n\r\n", "a\n\nb", "\ra\r\r\n", "a\n\r"] {
        let lines: Vec<String> = s.lines().map(|l| l.to_string()).collect();
        assert_eq!(strings(split_lines(&chars(s))), lines, "{:?}", s);
    }
}

#[test]
fn searching() {
    let v = chars("abcabc");
    assert!(matches_at(&v, &chars("bc"), 1));
    assert!(!matches_at(&v, &chars("bc"), 2));
    assert!(matches_at(&v, &chars(""), 6));
    assert!(!matches_at(&v, &chars(""), 7));
    assert!(!matches_at(&v, &chars("abcabca"), 0));
    assert!(!matches_at(&v, &chars("c"), usize::MAX));
    assert_eq!(find_text(&v, &chars("bc"), 0), Some(1));
    assert_eq!(find_text(&v, &chars("bc"), 2), Some(4));
    assert_eq!(find_text(&v, &chars("bc"), 5), None);
    assert_eq!(find_text(&v, &chars("x"), 0), None);
    assert_eq!(find_text(&v, &chars(""), 6), Some(6));
    assert_eq!(find_text(&v, &chars(""), 7), None);
    assert_eq!(find_first(&v, &chars("ca"), 0), Some(2));
    assert_eq!(find_first(&v, &chars("ca"), 3), None);
    assert!(has_text(&v, &chars("cab")));
    assert!(has_text(&v, &chars("")));
    assert!(!has_text(&v, &chars("cba")));
    assert!(!has_text(&chars(""), &chars("a")));
}

#[test]
fn numbers_read_and_written() {
    for n in [0u64, 9, 10, 99, 100, 65535, 65536, 4294967295] {
        assert_eq!(decimal_string(n), n.to_string());
        assert_eq!(parse_number(&chars(&n.to_string()), u32::MAX), Some(n as u32));
    }
    for s in ["0", "00", "+0", "255", "0255", "256", "", "+", "-0", "1a", " 1", "1 ", "\u{661}"] {
        assert_eq!(parse_number(&chars(s), 255), s.parse::<u8>().ok().map(|n| n as u32), "{:?}", s);
    }
    assert_eq!(hex_of_bytes(&vec![]), "");
    assert_eq!(hex_of_bytes(&(0u8..=255).collect()), (0u8..=255).map(|b| format!("{:02x}", b)).collect::<String>());
}

#[test]
fn sorting_is_stable() {
    let codec = |name: &str, priority: Option<u32>| {
        let mut c = Codec::new(name, 96, 8000, 1, "", false);
        c.priority = priority;
        c
    };
    let mut v = vec![
        codec("a", Some(3)),
        codec("b", Some(1)),
        codec("c", None),
        codec("d", Some(3)),
        codec("e", Some(2)),
        codec("f", Some(1)),
        codec("g", None),
        codec("h", Some(0)),
        codec("i", Some(u32::MAX)),
    ];
    sort_stable(&mut v);
    let names: Vec<&str> = v.iter().map(|c| c.name.as_str()).collect();
    assert_eq!(names, vec!["h", "b", "f", "e", "a", "d", "i", "c", "g"]);
    let mut empty: Vec<Codec> = vec![];
    sort_stable(&mut empty);
    assert!(empty.is_empty());
}

#[test]
fn items_are_moved() {
    let mut v = vec!['a', 'b', 'c', 'd', 'e'];
    assert!(move_item(&mut v, 1, 3));
    assert_eq!(v, vec!['a', 'c', 'd', 'b', 'e']);
    assert!(move_item(&mut v, 4, 0));
    assert_eq!(v, vec!['e', 'a', 'c', 'd', 'b']);
    assert!(move_item(&mut v, 2, 2));
    assert_eq!(v, vec!['e', 'a', 'c', 'd', 'b']);
    assert!(!move_item(&mut v, 5, 0));
    assert!(!move_item(&mut v, 0, 5));
    assert_eq!(v, vec!['e', 'a', 'c', 'd', 'b']);
    let mut none: Vec<char> = vec![];
    assert!(!move_item(&mut none, 0, 0));
}
