use workflow_ux::mnemonic::{phrase_words_of, trim_str, join_with_spaces, Mnemonic};

fn words(n: usize) -> Vec<String> {
    (1..=n).map(|i| format!("w{}", i)).collect()
}

#[test]
fn phrase_is_read_as_words() {
    let w = phrase_words_of("  a\tb\n'c' \"d\"  \r e ");
    assert_eq!(w, vec!["a", "b", "c", "d", "e"]);
    assert!(phrase_words_of("").is_empty());
    assert!(phrase_words_of("   ").is_empty());
}

#[test]
fn trimming_removes_unicode_white_space() {
    assert_eq!(trim_str("\u{A0}\u{2003}abc\u{3000} "), "abc");
    assert_eq!(trim_str("a b"), "a b");
}

#[test]
fn joining_with_spaces() {
    assert_eq!(join_with_spaces(&vec!["a".to_string(), "b".to_string()]), "a b");
    assert_eq!(join_with_spaces(&vec![]), "");
}

#[test]
fn short_phrase_is_kept_but_not_spread() {
    let mut m = Mnemonic::new(String::new());
    m.set_value("one  two");
    assert_eq!(m.value(), "one two");
    assert_eq!(m.field(0), "");
}

#[test]
fn full_phrase_is_spread() {
    let mut m = Mnemonic::new(String::new());
    let phrase = words(24).join("  ");
    m.set_value(&phrase);
    assert_eq!(m.value(), words(24).join(" "));
    for i in 0..24 {
        assert_eq!(m.field(i), format!("w{}", i + 1));
    }
}

#[test]
fn setting_the_kept_phrase_again_changes_nothing() {
    let mut m = Mnemonic::new(String::new());
    m.set_value(" x\t'y'  z ");
    let v = m.value();
    m.set_value(&v);
    assert_eq!(m.value(), v);
    assert_eq!(v, "x y z");
}

#[test]
fn typing_in_a_field_keeps_its_first_word() {
    let mut m = Mnemonic::new(String::new());
    let v = m.on_input_change(3, "hello world").unwrap();
    assert_eq!(m.field(3), "hello");
    assert_eq!(v, format!("   hello{}", " ".repeat(20)));
    assert_eq!(m.value(), v);
}

#[test]
fn field_past_the_last_is_ignored() {
    let mut m = Mnemonic::new("start".to_string());
    assert_eq!(m.on_input_change(24, "x"), None);
    assert_eq!(m.value(), "start");
}

#[test]
fn pasting_a_phrase_into_the_first_field() {
    let mut m = Mnemonic::new(String::new());
    let v = m.on_input_change(0, &words(24).join(" ")).unwrap();
    assert_eq!(v, words(24).join(" "));
    let mut m = Mnemonic::new(String::new());
    let v = m.on_input_change(0, &words(25).join(" ")).unwrap();
    assert_eq!(v, words(24).join(" "));
    assert_eq!(m.field(0), "w1");
}
