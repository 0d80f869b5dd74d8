use pets::text::{
    chars_of, decode_or_empty, extend_with, find_in, holds, is_whitespace, joined, lines_of,
    matches_at, same, slice_of, split_at_char, split_once_at, string_of, strings_of, trimmed,
    words_of,
};

fn cs(s: &str) -> Vec<char> {
    s.chars().collect()
}

fn texts(items: Vec<Vec<char>>) -> Vec<String> {
    items.into_iter().map(|v| v.into_iter().collect()).collect()
}

#[test]
fn chars_and_strings_round_trip() {
    assert_eq!(chars_of("h\u{e9}llo"), vec!['h', '\u{e9}', 'l', 'l', 'o']);
    assert_eq!(string_of(&cs("h\u{e9}llo")), "h\u{e9}llo");
    assert_eq!(string_of(&Vec::new()), "");
    assert_eq!(strings_of(&vec![cs("a"), cs(""), cs("bc")]), vec!["a", "", "bc"]);
    assert_eq!(slice_of(&cs("abcdef"), 2, 4), cs("cd"));
    assert!(same(&cs("abc"), &cs("abc")));
    assert!(!same(&cs("abc"), &cs("abd")));
    assert!(!same(&cs("abc"), &cs("ab")));
}

#[test]
fn white_space_is_unicode_white_space() {
    for c in ['\t', '\n', '\u{b}', '\u{c}', '\r', ' ', '\u{85}', '\u{a0}', '\u{1680}', '\u{2000}',
        '\u{200a}', '\u{2028}', '\u{2029}', '\u{202f}', '\u{205f}', '\u{3000}'] {
        assert!(is_whitespace(c));
    }
    for c in ['a', '0', '\u{8}', '\u{e}', '\u{200b}', '\u{feff}', '\u{180e}'] {
        assert!(!is_whitespace(c));
    }
    for u in 0u32..0x3100 {
        if let Some(c) = char::from_u32(u) {
            assert_eq!(is_whitespace(c), c.is_whitespace());
        }
    }
}

#[test]
fn find_gives_the_first_occurrence() {
    assert_eq!(find_in(&cs("a: b: c"), &cs(": ")), Some(1));
    assert_eq!(find_in(&cs("aaa"), &cs("aa")), Some(0));
    assert_eq!(find_in(&cs("abc"), &cs("c")), Some(2));
    assert_eq!(find_in(&cs("abc"), &cs("d")), None);
    assert_eq!(find_in(&cs("ab"), &cs("abc")), None);
    assert_eq!(find_in(&cs("abc"), &cs("")), Some(0));
    assert_eq!(find_in(&cs(""), &cs("")), Some(0));
    assert!(matches_at(&cs("error: x"), &cs("error:"), 0));
    assert!(!matches_at(&cs(" error:"), &cs("error:"), 0));
    assert!(matches_at(&cs("abc"), &cs("bc"), 1));
    assert!(!matches_at(&cs("abc"), &cs("bc"), 2));
    assert!(!matches_at(&cs("abc"), &cs("c"), usize::MAX));
}

#[test]
fn split_once_matches_std() {
    for (text, pat) in [("key = value", "="), ("a=b=c", "="), ("abc", "="), ("=", "="),
        ("Name : x: y", ": "), ("exa v1 v2", " v"), ("", "x")] {
        let mine = split_once_at(&cs(text), &cs(pat))
            .map(|(a, b)| (string_of(&a), string_of(&b)));
        let std = text.split_once(pat).map(|(a, b)| (a.to_string(), b.to_string()));
        assert_eq!(mine, std);
    }
}

#[test]
fn trim_matches_std() {
    for text in ["  a b \t\n", "", "   ", "x", "\u{a0}x\u{3000}", " \r\n x y", "x  "] {
        assert_eq!(string_of(&trimmed(&cs(text))), text.trim());
    }
}

#[test]
fn lines_match_std() {
    for text in ["a\nb\n", "a\nb", "", "\n", "\n\n", "a\r\nb\r\n", "a\rb\n", "foo\r\nbar\n\nbaz\r",
        "x\r", "\r\n", "\r\r\n"] {
        let std: Vec<String> = text.lines().map(|l| l.to_string()).collect();
        assert_eq!(texts(lines_of(&cs(text))), std);
    }
}

#[test]
fn split_matches_std() {
    for text in ["a,b,c", "", ",", "a,", ",a", "a,,b", "no comma"] {
        let std: Vec<String> = text.split(',').map(|l| l.to_string()).collect();
        assert_eq!(texts(split_at_char(&cs(text), ',')), std);
    }
}

#[test]
fn words_match_std() {
    for text in ["a b  c", "", "   ", " lead", "trail ", "\ta\nb\u{a0}c\r\n", "one"] {
        let std: Vec<String> = text.split_whitespace().map(|l| l.to_string()).collect();
        assert_eq!(texts(words_of(&cs(text))), std);
    }
}

#[test]
fn join_matches_std() {
    let parts = vec!["cp".to_string(), "a b".to_string(), String::new(), "c".to_string()];
    assert_eq!(joined(&parts, " "), parts.join(" "));
    assert_eq!(joined(&parts, ", "), "cp, a b, , c");
    assert_eq!(joined(&Vec::new(), " "), "");
    assert_eq!(joined(&vec!["x".to_string()], " "), "x");
}

#[test]
fn lists_are_extended_and_searched() {
    let mut out = vec!["a".to_string()];
    extend_with(&mut out, &vec!["b".to_string(), "c".to_string()]);
    assert_eq!(out, vec!["a", "b", "c"]);
    assert!(holds(&vec![cs("exa"), cs("rg")], &cs("rg")));
    assert!(!holds(&vec![cs("exa"), cs("rg")], &cs("r")));
    assert!(!holds(&Vec::new(), &cs("")));
}

#[test]
fn bytes_are_decoded_strictly() {
    assert_eq!(decode_or_empty(&"gr\u{fc}n".as_bytes().to_vec()), "gr\u{fc}n");
    assert_eq!(decode_or_empty(&vec![0x66, 0x80]), "");
    assert_eq!(decode_or_empty(&Vec::new()), "");
}

/// Texts over a small alphabet, the same on every run.
fn samples() -> Vec<String> {
    let alphabet = [' ', '\t', '\n', '\r', 'a', 'v', ':', '=', ',', '\u{a0}', '\u{e9}'];
    let mut state: u64 = 0x2545_f491_4f6c_dd1d;
    let mut out = Vec::new();
    for round in 0..400 {
        let len = round % 13;
        let mut text = String::new();
        for _ in 0..len {
            state = state.wrapping_mul(6364136223846793005).wrapping_add(1442695040888963407);
            text.push(alphabet[((state >> 33) % alphabet.len() as u64) as usize]);
        }
        out.push(text);
    }
    out
}

#[test]
fn cutting_agrees_with_std_on_many_texts() {
    for text in samples() {
        let chars = cs(&text);
        assert_eq!(string_of(&trimmed(&chars)), text.trim());
        let lines: Vec<String> = text.lines().map(|l| l.to_string()).collect();
        assert_eq!(texts(lines_of(&chars)), lines);
        let pieces: Vec<String> = text.split(',').map(|l| l.to_string()).collect();
        assert_eq!(texts(split_at_char(&chars, ',')), pieces);
        let words: Vec<String> = text.split_whitespace().map(|l| l.to_string()).collect();
        assert_eq!(texts(words_of(&chars)), words);
        for pat in [": ", "=", " v", "a", "\n\n"] {
            let mine = split_once_at(&chars, &cs(pat)).map(|(a, b)| (string_of(&a), string_of(&b)));
            let std = text.split_once(pat).map(|(a, b)| (a.to_string(), b.to_string()));
            assert_eq!(mine, std);
            assert_eq!(matches_at(&chars, &cs(pat), 0), text.starts_with(pat));
            assert_eq!(find_in(&chars, &cs(pat)).is_some(), text.contains(pat));
        }
        assert_eq!(joined(&texts(split_at_char(&chars, ',')), ","), text);
    }
}
