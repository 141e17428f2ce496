use openasio::text::{chars_of, comes_before, contains, is_space, normalized_chars, same, text_of};

fn cs(s: &str) -> Vec<char> {
    s.chars().collect()
}

#[test]
fn chars_and_text_are_inverse() {
    for s in ["", "a", "hw:0,0", "äö\u{10348}"] {
        assert_eq!(chars_of(s), cs(s));
        assert_eq!(text_of(&cs(s)), s);
    }
}

#[test]
fn space_is_the_five_ascii_blanks() {
    for c in [' ', '\t', '\n', '\x0C', '\r'] {
        assert!(is_space(c));
        assert!(c.is_ascii_whitespace());
    }
    for c in ['a', '\x0B', '\u{a0}', '\0', '\u{2003}'] {
        assert!(!is_space(c));
        assert!(!c.is_ascii_whitespace());
    }
}

#[test]
fn normalized_chars_agree_with_std() {
    for s in ["", "UMC 202 HD", "  A\tb\nC ", "Straße ΣΑΣ İ"] {
        let want: Vec<char> =
            s.chars().filter(|c| !c.is_ascii_whitespace()).flat_map(|c| c.to_lowercase()).collect();
        assert_eq!(normalized_chars(s), want);
    }
}

#[test]
fn contains_finds_substrings() {
    assert!(contains(&cs("abc"), &cs("")));
    assert!(contains(&cs(""), &cs("")));
    assert!(contains(&cs("abc"), &cs("abc")));
    assert!(contains(&cs("abc"), &cs("a")));
    assert!(contains(&cs("abc"), &cs("c")));
    assert!(contains(&cs("aab"), &cs("ab")));
    assert!(contains(&cs("xxumc202hdxx"), &cs("umc202hd")));
    assert!(!contains(&cs(""), &cs("a")));
    assert!(!contains(&cs("abc"), &cs("abcd")));
    assert!(!contains(&cs("abc"), &cs("ac")));
    assert!(!contains(&cs("abc"), &cs("cb")));
}

#[test]
fn order_is_the_dictionary_order_of_std() {
    let words = ["", "a", "A", "ab", "abc", "b", "é", "z", "\u{ffff}", "\u{10000}", "aa", "a\0"];
    for x in words {
        for y in words {
            assert_eq!(comes_before(&cs(x), &cs(y)), x < y, "{:?} < {:?}", x, y);
            assert_eq!(same(&cs(x), &cs(y)), x == y);
        }
    }
}
