use multihangman::text::{contains, count_of, to_decimal, trim};
use multihangman::textbox::{TextBox, BACKSPACE};

fn chars(s: &str) -> Vec<char> {
    s.chars().collect()
}

#[test]
fn num_input_appends_digit() {
    assert_eq!(TextBox::process_input_num(12, '3'), 123);
    assert_eq!(TextBox::process_input_num(0, '7'), 7);
}

#[test]
fn num_input_backspace_drops_digit() {
    assert_eq!(TextBox::process_input_num(123, BACKSPACE), 12);
    assert_eq!(TextBox::process_input_num(5, BACKSPACE), 0);
    assert_eq!(TextBox::process_input_num(0, BACKSPACE), 0);
}

#[test]
fn num_input_other_characters_reset() {
    assert_eq!(TextBox::process_input_num(42, 'x'), 0);
    assert_eq!(TextBox::process_input_num(42, '+'), 0);
    assert_eq!(TextBox::process_input_num(42, '\u{1}'), 0);
}

#[test]
fn num_input_overflow_resets() {
    assert_eq!(TextBox::process_input_num(u64::MAX, '1'), 0);
    assert_eq!(TextBox::process_input_num(1844674407370955161, '5'), 18446744073709551615);
    assert_eq!(TextBox::process_input_num(1844674407370955161, '6'), 0);
}

#[test]
fn num_input_backspace_undoes_digit() {
    let n = TextBox::process_input_num(987, '4');
    assert_eq!(TextBox::process_input_num(n, BACKSPACE), 987);
}

#[test]
fn str_input_accepts_letters_digits_punctuation() {
    let mut s = String::from("ab");
    let r = TextBox::process_input_str(&mut s, 'C');
    assert_eq!(s, "abC");
    assert_eq!(r, "abC");
    TextBox::process_input_str(&mut s, '9');
    TextBox::process_input_str(&mut s, ':');
    TextBox::process_input_str(&mut s, '.');
    TextBox::process_input_str(&mut s, 'é');
    assert_eq!(s, "abC9:.é");
}

#[test]
fn str_input_ignores_other_characters() {
    let mut s = String::from("ab");
    TextBox::process_input_str(&mut s, ' ');
    TextBox::process_input_str(&mut s, '$');
    TextBox::process_input_str(&mut s, '\u{1}');
    TextBox::process_input_str(&mut s, '+');
    assert_eq!(s, "ab");
}

#[test]
fn str_input_backspace() {
    let mut s = String::from("ab");
    let r = TextBox::process_input_str(&mut s, BACKSPACE);
    assert_eq!(r, "a");
    TextBox::process_input_str(&mut s, BACKSPACE);
    TextBox::process_input_str(&mut s, BACKSPACE);
    assert_eq!(s, "");
}

#[test]
fn str_input_backspace_undoes_char() {
    let mut s = String::from("host");
    TextBox::process_input_str(&mut s, 'x');
    TextBox::process_input_str(&mut s, BACKSPACE);
    assert_eq!(s, "host");
}

#[test]
fn decimal_rendering() {
    assert_eq!(to_decimal(0), "0");
    assert_eq!(to_decimal(7), "7");
    assert_eq!(to_decimal(65535), "65535");
    assert_eq!(to_decimal(u64::MAX), u64::MAX.to_string());
}

#[test]
fn trimming() {
    assert_eq!(trim(&String::from("  hello\t\n")), "hello");
    assert_eq!(trim(&String::from("\u{3000}a b\u{2009}")), "a b");
    assert_eq!(trim(&String::from("   ")), "");
    assert_eq!(trim(&String::from("word")), "word");
}

#[test]
fn substring_search() {
    assert!(contains(&chars("hello"), &chars("ll")));
    assert!(contains(&chars("hello"), &chars("o")));
    assert!(!contains(&chars("hello"), &chars("z")));
    assert!(contains(&chars("hello"), &chars("")));
    assert!(!contains(&chars(""), &chars("a")));
}

#[test]
fn match_counting() {
    assert_eq!(count_of(&chars("banana"), &chars("a")), 3);
    assert_eq!(count_of(&chars("aaaa"), &chars("aa")), 2);
    assert_eq!(count_of(&chars("abc"), &chars("")), 4);
    assert_eq!(count_of(&chars("héllo"), &chars("l")), "héllo".matches("l").count() as u128);
    assert_eq!(count_of(&chars("abc"), &chars("d")), 0);
}

#[test]
fn push_key_takes_printable_ascii_only() {
    let mut s = String::from("a");
    TextBox::push_key(&mut s, 66);
    assert_eq!(s, "aB");
    TextBox::push_key(&mut s, 32);
    assert_eq!(s, "aB ");
    TextBox::push_key(&mut s, 125);
    assert_eq!(s, "aB }");
    TextBox::push_key(&mut s, 126);
    TextBox::push_key(&mut s, 31);
    TextBox::push_key(&mut s, 0);
    TextBox::push_key(&mut s, 300);
    assert_eq!(s, "aB }");
}

#[test]
fn cursor_text_is_last_grapheme() {
    assert_eq!(TextBox::cursor_text(""), "a");
    assert_eq!(TextBox::cursor_text("abc"), "c");
    assert_eq!(TextBox::cursor_text("xe\u{301}"), "e\u{301}");
    assert_eq!(TextBox::cursor_text("a\r\n"), "\r\n");
    assert_eq!(TextBox::cursor_text("127.0.0.1:"), ":");
}
