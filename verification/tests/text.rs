use opensessions_server::numerals::{read_unsigned, write_decimal};
use opensessions_server::text::{
    chars_of, find_chars, same_ignoring_case, same_text, split_all, split_at_first, split_lines,
    split_words, string_of, text_precedes, trimmed, white, without_prefix, without_suffix,
    CharClass,
};
use opensessions_server::text_map::{list_holds, TextMap};

#[test]
fn white_space_is_what_unicode_says() {
    for code in 0..=0x10ffff_u32 {
        if let Some(ch) = char::from_u32(code) {
            assert_eq!(white(ch), ch.is_whitespace(), "{code:x}");
        }
    }
}

#[test]
fn text_is_split_and_trimmed() {
    let of = |chars: &[char]| string_of(chars);
    let parts = |list: Vec<&[char]>| list.into_iter().map(string_of).collect::<Vec<_>>();
    let text = chars_of(" a,,b ");
    assert_eq!(of(trimmed(&text, CharClass::White)), "a,,b");
    assert_eq!(parts(split_all(&text, &[','])), vec![" a", "", "b "]);
    let lines = chars_of("one\r\ntwo\n\nthree\r");
    assert_eq!(parts(split_lines(&lines)), vec!["one", "two", "", "three\r"]);
    let words = chars_of("\u{2003}a  b\tc ");
    assert_eq!(parts(split_words(&words)), vec!["a", "b", "c"]);
    assert!(split_at_first(&text, &[';']).is_none());
    let (before, after) = split_at_first(&text, &[',']).unwrap();
    assert_eq!((of(before).as_str(), of(after).as_str()), (" a", ",b "));
    assert_eq!(without_prefix(&text, &[' ', 'a']).map(of), Some(",,b ".to_string()));
    assert_eq!(without_suffix(&text, &['b']).map(of), None);
    assert_eq!(find_chars(&text, &['b']), Some(4));
    assert_eq!(find_chars(&text, &[]), Some(0));
}

#[test]
fn text_is_compared() {
    assert!(same_text("ü", "ü") && !same_text("ü", "u"));
    assert!(text_precedes("a", "ab") && text_precedes("Z", "a") && !text_precedes("a", "a"));
    assert!(text_precedes("z", "ä"));
    assert!(same_ignoring_case(&chars_of("WebSocket"), &chars_of("wEBsOCKET")));
    assert!(!same_ignoring_case(&chars_of("Ü"), &chars_of("ü")));
}

#[test]
fn numerals_read_back() {
    for n in [0, 9, 10, 1_785, u64::MAX] {
        let numeral = write_decimal(n as u128);
        assert_eq!(string_of(&numeral), n.to_string());
        assert_eq!(read_unsigned(&numeral, u64::MAX), Some(n));
    }
    for text in ["", "+", "-1", " 1", "1_0", "18446744073709551616", "++1"] {
        assert_eq!(read_unsigned(&chars_of(text), u64::MAX), None, "{text}");
    }
    assert_eq!(read_unsigned(&chars_of("+007"), 7), Some(7));
    assert_eq!(read_unsigned(&chars_of("8"), 7), None);
}

#[test]
fn maps_keep_the_order_of_their_keys() {
    let mut map = TextMap::new();
    assert_eq!(map.insert("b".to_string(), 1), None);
    assert_eq!(map.insert("a".to_string(), 2), None);
    assert_eq!(map.insert("b".to_string(), 3), Some(1));
    assert_eq!(map.len(), 2);
    assert_eq!(map.entry(0), (&"b".to_string(), &3));
    assert_eq!(map.remove("b"), Some(3));
    assert_eq!(map.remove("b"), None);
    assert_eq!(map.get("a"), Some(&2));
    assert_eq!(map.key_list(), vec!["a".to_string()]);
    assert!(list_holds(&map.key_list(), "a"));
}
