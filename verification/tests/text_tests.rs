use van::display::{pad_to_width, sanitize_str, truncate_to_width, window_of};
use van::language::{detect_language, language_for, to_lower, Language};
use van::lines::{join_lines, split_lines};
use van::number::{number_text, parse_number};
use van::text::{
    byte_count, char_count, char_to_byte_idx, char_width, ends_with, find,
    from_chars, is_control, is_whitespace, repeat_char, same_text, starts_with, strip_prefix,
    to_chars, trim, trim_end, trim_start,
};

#[test]
fn character_classes_agree_with_unicode() {
    for u in 0u32..=0x10ffff {
        if let Some(c) = char::from_u32(u) {
            assert_eq!(is_whitespace(c), c.is_whitespace(), "white space {:x}", u);
            assert_eq!(is_control(c), c.is_control(), "control {:x}", u);
            assert_eq!(char_width(c), c.len_utf8(), "width {:x}", u);
        }
    }
}

#[test]
fn byte_index_of_a_character() {
    let s = "a\u{e9}\u{20ac}\u{1f600}b";
    assert_eq!(char_to_byte_idx(s, 0), 0);
    assert_eq!(char_to_byte_idx(s, 1), 1);
    assert_eq!(char_to_byte_idx(s, 2), 3);
    assert_eq!(char_to_byte_idx(s, 3), 6);
    assert_eq!(char_to_byte_idx(s, 4), 10);
    assert_eq!(char_to_byte_idx(s, 5), 11);
    assert_eq!(char_to_byte_idx(s, 99), 11);
    assert_eq!(char_to_byte_idx("", 3), 0);
}

#[test]
fn byte_indices_are_character_boundaries() {
    let s = "x\u{e9}y\u{20ac}";
    for k in 0..=char_count(s) {
        let b = char_to_byte_idx(s, k);
        assert!(s.is_char_boundary(b));
        assert_eq!(s[..b].chars().count(), k);
    }
    assert_eq!(byte_count(s), 7);
}

#[test]
fn trimming_agrees_with_std() {
    let samples = [
        "", " ", "  a b  ", "\t\u{a0}x\u{3000}", "x", "\u{2003}\n", "\u{200b}x ", " \u{85}q\u{85} ",
    ];
    for s in samples {
        assert_eq!(trim(s), s.trim());
        assert_eq!(trim_start(s), s.trim_start());
        assert_eq!(trim_end(s), s.trim_end());
        assert_eq!(trim(trim(s)), trim(s));
    }
}

#[test]
fn prefixes_and_ends() {
    assert_eq!(strip_prefix(":wq", ":"), Some("wq"));
    assert_eq!(strip_prefix("wq", ":"), None);
    assert_eq!(strip_prefix("ai", "ai"), Some(""));
    assert_eq!(strip_prefix("a", "ai"), None);
    assert!(starts_with("else:", "else"));
    assert!(!starts_with("els", "else"));
    assert!(ends_with("if x:", ':'));
    assert!(!ends_with("", ':'));
    assert!(same_text("abc", "abc"));
    assert!(!same_text("abc", "abd"));
    assert!(!same_text("abc", "ab"));
}

#[test]
fn finding_the_first_place() {
    let s = to_chars("na\u{ef}ve na\u{ef}ve");
    let q = to_chars("a\u{ef}");
    assert_eq!(find(&s, &q, 0), Some(1));
    assert_eq!(find(&s, &q, 2), Some(7));
    assert_eq!(find(&s, &q, 8), None);
    assert_eq!(find(&s, &to_chars(""), 3), Some(3));
    assert_eq!(find(&s, &to_chars(""), 11), Some(11));
    assert_eq!(find(&s, &to_chars(""), 12), None);
    assert_eq!(find(&to_chars("aab"), &to_chars("ab"), 0), Some(1));
}

#[test]
fn characters_and_strings() {
    let v = to_chars("h\u{e9}llo");
    assert_eq!(v, vec!['h', '\u{e9}', 'l', 'l', 'o']);
    assert_eq!(from_chars(&v, 1, 4), "\u{e9}ll");
    assert_eq!(repeat_char('*', 3), "***");
    assert_eq!(repeat_char('*', 0), "");
}

#[test]
fn lines_agree_with_std() {
    let samples = [
        "", "\n", "a", "a\n", "a\nb", "a\r\nb\r\n", "foo\nbar\n\r\nbaz\r", "\r", "\r\n", "a\rb\n\n",
        "\n\nx", "a\r\r\nb",
    ];
    for s in samples {
        let expected: Vec<String> = s.lines().map(|l| l.to_string()).collect();
        assert_eq!(split_lines(s), expected, "{:?}", s);
    }
}

#[test]
fn joining_lines() {
    let lines = vec!["a".to_string(), "".to_string(), "b".to_string()];
    assert_eq!(join_lines(&lines), "a\n\nb");
    assert_eq!(join_lines(&vec!["x".to_string()]), "x");
    assert_eq!(join_lines(&Vec::new()), "");
    assert_eq!(split_lines(&join_lines(&lines)), lines);
}

#[test]
fn widths() {
    assert_eq!(truncate_to_width("h\u{e9}llo", 2), "h\u{e9}");
    assert_eq!(truncate_to_width("hi", 5), "hi");
    assert_eq!(truncate_to_width("hi", 0), "");
    assert_eq!(pad_to_width("h\u{e9}", 4), "h\u{e9}  ");
    assert_eq!(pad_to_width("hello", 3), "hello");
    for s in ["", "abc", "\u{20ac}\u{20ac}\u{20ac}\u{20ac}\u{20ac}\u{20ac}"] {
        assert_eq!(pad_to_width(&truncate_to_width(s, 4), 4).chars().count(), 4);
    }
    assert_eq!(window_of("abcdef", 2, 3), "cde");
    assert_eq!(window_of("abcdef", 4, 9), "ef");
    assert_eq!(window_of("abcdef", 9, 2), "");
    assert_eq!(window_of("abc", 1, usize::MAX), "bc");
}

#[test]
fn sanitizing() {
    assert_eq!(sanitize_str("a\x1b[31mb"), "a\u{241b}[31mb");
    assert_eq!(sanitize_str("a\x07b\x00c\u{9f}"), "abc");
    assert_eq!(sanitize_str("a\tb\nc\rd"), "a\tb\nc\rd");
    let once = sanitize_str("\x1b\x01\t x");
    assert_eq!(sanitize_str(&once), once);
    assert_eq!(sanitize_str("ab\x02c"), sanitize_str("ab") + &sanitize_str("\x02c"));
}

#[test]
fn numbers() {
    assert_eq!(number_text(0), "0");
    assert_eq!(number_text(1207), "1207");
    assert_eq!(number_text(usize::MAX), usize::MAX.to_string());
    let samples = [
        "", "+", "-", "0", "-0", "+0", "7", "+7", "++7", "007", "12a", "18446744073709551615",
        "18446744073709551616", "99999999999999999999999", "\u{661}", "1 2",
    ];
    for s in samples {
        assert_eq!(parse_number(s), s.parse::<usize>().ok(), "{:?}", s);
    }
    for n in [0usize, 9, 10, 345, usize::MAX] {
        assert_eq!(parse_number(&number_text(n)), Some(n));
    }
}

#[test]
fn languages_by_extension() {
    assert_eq!(detect_language("main.rs"), Language::Rust);
    assert_eq!(detect_language("A.PY"), Language::Python);
    assert_eq!(detect_language("x.c"), Language::C);
    assert_eq!(detect_language("x.h"), Language::C);
    assert_eq!(detect_language("x.cpp"), Language::C);
    assert_eq!(detect_language("x.HpP"), Language::C);
    assert_eq!(detect_language("run.sh"), Language::Shell);
    assert_eq!(detect_language("notes.txt"), Language::PlainText);
    assert_eq!(detect_language("untitled"), Language::PlainText);
    assert_eq!(detect_language(".py"), Language::PlainText);
    assert_eq!(detect_language("dir.py/file"), Language::PlainText);
    assert_eq!(detect_language("dir/file.py/"), Language::Python);
    assert_eq!(detect_language("dir/file.py/."), Language::Python);
    assert_eq!(detect_language("file.py/.."), Language::PlainText);
    assert_eq!(detect_language(""), Language::PlainText);
}

#[test]
fn extensions_agree_with_std() {
    let samples = [
        "a.rs", "a.b.rs", ".rs", "..rs", ".a.rs", "a.rs.", "a.rs/", "a.rs//", "a.rs/./", "./a.rs",
        ".", "..", "/", "//", "a/..", "./.", "/.", "a.rs/../.", "", "rs", "x/.rs", "x/y.rs", "a. rs",
        "\u{e9}.rs", "...", "a..rs", "/a.rs", "a/b.c/d", "d\\.rs", "x.rs\\", "d\\a.rs", "C:.rs",
        "C:a.rs", "C:\\a.rs", "//host/share.rs", "//host/share/a.rs", "\\\\?\\C:\\a.b/c.rs",
    ];
    for s in samples {
        let path = std::path::PathBuf::from(s);
        let is_rust = path.extension().map_or(false, |e| e == "rs");
        assert_eq!(detect_language(s) == Language::Rust, is_rust, "{:?}", s);
    }
    assert_eq!(to_lower("RuST\u{c9}[@"), "RuST\u{c9}[@".to_ascii_lowercase());
}

#[test]
fn capitals_do_not_change_the_language() {
    for path in ["DIR.C/Main.RS", "A.Py", "x.SH/.", "NOTE.TXT", ".SH", "Dir/..", "K.Hpp"] {
        assert_eq!(detect_language(path), detect_language(&path.to_ascii_lowercase()));
    }
    assert_eq!(detect_language("A.Py"), Language::Python);
}

#[test]
fn languages_for_extensions() {
    assert_eq!(language_for(Some("RS".to_string())), Language::Rust);
    assert_eq!(language_for(Some("Py".to_string())), Language::Python);
    assert_eq!(language_for(Some("hpp".to_string())), Language::C);
    assert_eq!(language_for(Some("sh".to_string())), Language::Shell);
    assert_eq!(language_for(Some("".to_string())), Language::PlainText);
    assert_eq!(language_for(Some(".rs".to_string())), Language::PlainText);
    assert_eq!(language_for(None), Language::PlainText);
}
