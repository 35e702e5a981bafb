use insights::emoji::EmojiTable;
use insights::text::{
    ascii, ascii_alphanumeric, chars_of, count_solid, find, keep_alphanumeric, keep_ascii,
    same_text, split_whitespace, stands_at, string_of, string_of_range, trim, whitespace,
};

fn chars(text: &str) -> Vec<char> {
    text.chars().collect()
}

#[test]
fn chars_and_strings_turn_into_each_other() {
    assert_eq!(chars_of("Hey! 💩"), chars("Hey! 💩"));
    assert_eq!(chars_of(""), Vec::<char>::new());
    assert_eq!(string_of(&chars("Hey! 💩")), "Hey! 💩");
    assert_eq!(string_of_range(&chars("Hey! 💩"), 1, 4), "ey!");
    assert_eq!(string_of_range(&chars("Hey! 💩"), 5, 6), "💩");
    assert_eq!(string_of_range(&chars("Hey! 💩"), 3, 3), "");
}

#[test]
fn whitespace_is_what_std_calls_whitespace() {
    for code in 0..=0x10FFFFu32 {
        if let Some(c) = char::from_u32(code) {
            assert_eq!(whitespace(c), c.is_whitespace(), "U+{:04X}", code);
            assert_eq!(ascii(c), c.is_ascii(), "U+{:04X}", code);
            assert_eq!(ascii_alphanumeric(c), c.is_ascii_alphanumeric(), "U+{:04X}", code);
        }
    }
}

#[test]
fn trim_is_what_std_trims() {
    let texts = [
        "", " ", "a", " a", "a ", "  a b  ", "\t\n a\u{a0}b \u{3000}\r\n", "\u{2003}x\u{85}",
        "\u{200b} x", "   ",
    ];
    for text in texts {
        assert_eq!(string_of(&trim(&chars(text))), text.trim(), "{:?}", text);
    }
}

#[test]
fn split_whitespace_is_what_std_splits() {
    let texts = [
        "", " ", "a", " a", "a ", "  a b  ", "one  two\tthree\nfour", "\u{2003}x\u{85}y z",
        "Hey! 💩 heyyyyyyy, 'sup", "   ",
    ];
    for text in texts {
        let got: Vec<String> = split_whitespace(&chars(text)).iter().map(string_of).collect();
        let want: Vec<&str> = text.split_whitespace().collect();
        assert_eq!(got, want, "{:?}", text);
    }
}

#[test]
fn find_is_what_std_contains() {
    let texts = ["", "a", "omitted", "image omitted", "omitte", "xomittedx", "ababac", "💩a💩"];
    let patterns = ["", "a", "omitted", "abac", "ac", "💩", "a💩", "b", "image"];
    for text in texts {
        for pattern in patterns {
            assert_eq!(
                find(&chars(text), &chars(pattern)),
                text.contains(pattern),
                "{:?} in {:?}",
                pattern,
                text
            );
        }
    }
}

#[test]
fn stands_at_looks_at_one_index() {
    assert!(stands_at(&chars("ababac"), &chars("abac"), 2));
    assert!(!stands_at(&chars("ababac"), &chars("abac"), 0));
    assert!(!stands_at(&chars("ababac"), &chars("abac"), 3));
    assert!(stands_at(&chars("ab"), &chars(""), 2));
    assert!(!stands_at(&chars("ab"), &chars(""), 3));
    assert!(!stands_at(&chars("ab"), &chars("abc"), 0));
    assert!(!stands_at(&chars("ab"), &chars("b"), usize::MAX));
    assert!(same_text(&chars("ab"), &chars("ab")));
    assert!(!same_text(&chars("ab"), &chars("abc")));
    assert!(!same_text(&chars("ab"), &chars("ac")));
    assert!(same_text(&chars(""), &chars("")));
}

#[test]
fn filters_keep_the_order() {
    assert_eq!(string_of(&keep_ascii(&chars("Héllo 💩 wörld"))), "Hllo  wrld");
    assert_eq!(string_of(&keep_alphanumeric(&chars("Héllo, 42 wörld_!"))), "Hllo42wrld");
    assert_eq!(count_solid(&chars(" a b\tc\n💩 ")), 4);
    assert_eq!(count_solid(&chars("")), 0);
}

#[test]
fn a_table_keeps_each_glyph_once() {
    let table = EmojiTable::new(&vec![
        String::from("🎉"),
        String::from("💩"),
        String::from("🎉"),
        String::from("🇺🇸"),
    ]);
    assert!(table.contains(&chars("🎉")));
    assert!(table.contains(&chars("💩")));
    assert!(table.contains(&chars("🇺🇸")));
    assert!(!table.contains(&chars("🇺")));
    assert!(!table.contains(&chars("")));
    assert!(!table.contains(&chars("🎉🎉")));
    let found = table.count("🎉💩🎉 🇺🇸🇺🇸 🎉");
    assert_eq!(found.keys(), vec!["🎉", "💩", "🇺🇸"]);
    let counts: Vec<usize> = found.entries.iter().map(|e| e.count).collect();
    assert_eq!(counts, vec![3, 1, 2]);
    assert_eq!(table.count("no emoji here").len(), 0);
    assert_eq!(table.count("").len(), 0);
}
