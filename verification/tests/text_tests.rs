use wgbridge::text::{char_is_white_space, split_trimmed, starts_with, trim};

#[test]
fn white_space_matches_std_for_every_char() {
    for u in 0u32..0x110000 {
        if let Some(c) = char::from_u32(u) {
            assert_eq!(char_is_white_space(c), c.is_whitespace(), "U+{:04X}", u);
        }
    }
}

#[test]
fn trim_removes_surrounding_whitespace() {
    assert_eq!(trim("  1.1.1.1 \n"), "1.1.1.1");
    assert_eq!(trim("\u{3000}x y\u{85}"), "x y");
    assert_eq!(trim(""), "");
    assert_eq!(trim(" \t\r\n "), "");
    assert_eq!(trim("abc"), "abc");
}

#[test]
fn trim_agrees_with_std() {
    for s in ["", " ", "a", " a ", "\u{a0}b\u{2028}", "x\u{200b}", "  in between  words "] {
        assert_eq!(trim(s), s.trim());
    }
}

#[test]
fn trim_is_idempotent() {
    let once = trim("\t padded \u{2003}");
    assert_eq!(trim(&once), once);
}

#[test]
fn split_trimmed_matches_std_split_and_trim() {
    for s in ["1.1.1.1", "1.1.1.1, 8.8.8.8", "", ",", "a,,b", " a , b ,", "x,y,z"] {
        let expected: Vec<String> = s.split(',').map(|p| p.trim().to_string()).collect();
        assert_eq!(split_trimmed(s, ','), expected, "input {:?}", s);
    }
}

#[test]
fn split_trimmed_exact_values() {
    assert_eq!(split_trimmed("1.1.1.1, 8.8.8.8", ','), vec!["1.1.1.1", "8.8.8.8"]);
    assert_eq!(split_trimmed("", ','), vec![""]);
    assert_eq!(split_trimmed("a,,b", ','), vec!["a", "", "b"]);
}

#[test]
fn split_then_join_gives_back_the_text() {
    let s = "9.9.9.9,149.112.112.112,1.0.0.1";
    let pieces = split_trimmed(s, ',');
    assert_eq!(pieces.join(","), s);
    assert!(pieces.iter().all(|p| !p.contains(',')));
}

#[test]
fn starts_with_cases() {
    assert!(starts_with("wg-home", "wg-"));
    assert!(!starts_with("wgbridge0", "wg-"));
    assert!(!starts_with("wg", "wg-"));
    assert!(starts_with("anything", ""));
}
