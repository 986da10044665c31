use littlemanplus::text::{characters, scan, trim, CharClass};

fn every_char() -> impl Iterator<Item = char> {
    (0..=0x10FFFFu32).filter_map(char::from_u32)
}

#[test]
fn white_space_is_what_std_trims() {
    for c in every_char() {
        assert_eq!(CharClass::WhiteSpace.contains(c), c.is_whitespace(), "{:?}", c);
    }
}

#[test]
fn ascii_classes() {
    for c in every_char() {
        assert_eq!(CharClass::Digit.contains(c), c.is_ascii_digit(), "{:?}", c);
        assert_eq!(CharClass::Upper.contains(c), c.is_ascii_uppercase(), "{:?}", c);
        assert_eq!(
            CharClass::IdentStart.contains(c),
            c.is_ascii_alphabetic() || c == '_',
            "{:?}",
            c
        );
        assert_eq!(
            CharClass::IdentContinue.contains(c),
            c.is_ascii_alphanumeric() || c == '_',
            "{:?}",
            c
        );
        assert_eq!(CharClass::InlineSpace.contains(c), c == ' ' || c == '\t', "{:?}", c);
        assert_eq!(
            CharClass::Newline.contains(c),
            ['\n', '\r', '\u{B}', '\u{C}', '\u{85}', '\u{2028}', '\u{2029}'].contains(&c),
            "{:?}",
            c
        );
    }
}

#[test]
fn characters_of_a_text() {
    assert_eq!(characters(""), Vec::<char>::new());
    assert_eq!(characters("a é\u{2028}𝄞"), vec!['a', ' ', 'é', '\u{2028}', '𝄞']);
}

#[test]
fn runs() {
    let text = characters("  \tab12 _x\n\n");
    assert_eq!(scan(&text, CharClass::InlineSpace, 0), 3);
    assert_eq!(scan(&text, CharClass::InlineSpace, 3), 3);
    assert_eq!(scan(&text, CharClass::IdentContinue, 3), 7);
    assert_eq!(scan(&text, CharClass::IdentStart, 3), 5);
    assert_eq!(scan(&text, CharClass::Digit, 5), 7);
    assert_eq!(scan(&text, CharClass::Newline, 10), 12);
    assert_eq!(scan(&text, CharClass::Newline, 12), 12);
    assert_eq!(scan(&text, CharClass::WhiteSpace, 0), 3);
}

#[test]
fn trimming_is_what_std_does() {
    let pieces = ["", " ", "\t\n", "\u{A0}", "\u{3000}\u{2003}", "x", "a b", "\u{200B}", "é ü", "\u{85}"];
    for left in pieces {
        for middle in pieces {
            for right in pieces {
                let text = format!("{}{}{}", left, middle, right);
                let chars = characters(&text);
                let (start, end) = trim(&chars);
                assert!(start <= end && end <= chars.len());
                let kept: String = chars[start..end].iter().collect();
                assert_eq!(kept, text.trim(), "{:?}", text);
            }
        }
    }
}
