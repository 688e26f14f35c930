use lan_tui::text::{
    chars_of, decimal, digit_str, join_texts, last_segment_start, parse_i32, same_text, two_digits,
};

#[test]
fn decimal_spellings() {
    assert_eq!(decimal(0), "0");
    assert_eq!(decimal(7), "7");
    assert_eq!(decimal(10), "10");
    assert_eq!(decimal(1234), "1234");
    assert_eq!(decimal(u64::MAX), u64::MAX.to_string());
}

#[test]
fn digit_strings() {
    for d in 0..10u64 {
        assert_eq!(digit_str(d), d.to_string());
    }
}

#[test]
fn two_digit_spellings() {
    assert_eq!(two_digits(0), "00");
    assert_eq!(two_digits(7), "07");
    assert_eq!(two_digits(42), "42");
    assert_eq!(two_digits(99), "99");
}

#[test]
fn text_equality() {
    assert!(same_text("Gateway", "Gateway"));
    assert!(!same_text("Gateway", "gateway"));
    assert!(!same_text("Gate", "Gateway"));
    assert!(same_text("", ""));
    assert!(same_text("█▁", "█▁"));
}

#[test]
fn joining_texts() {
    let none: Vec<String> = vec![];
    assert_eq!(join_texts(&none, ", "), "");
    assert_eq!(join_texts(&vec!["a".to_string()], ", "), "a");
    assert_eq!(
        join_texts(&vec!["Laptop".to_string(), "Phone".to_string(), "Printer".to_string()], ", "),
        "Laptop, Phone, Printer"
    );
}

#[test]
fn characters_of_text() {
    assert_eq!(chars_of("a▁b"), vec!['a', '▁', 'b']);
    assert_eq!(chars_of(""), Vec::<char>::new());
}

#[test]
fn parsing_i32_like_std() {
    let cases = [
        "42", "+7", "-5", "007", "-0", "2147483647", "2147483648", "-2147483648",
        "-2147483649", "", "-", "+", "4a", " 4", "99999999999999999999", "+-1", "١",
    ];
    for c in cases {
        assert_eq!(parse_i32(c), c.parse::<i32>().ok(), "input {:?}", c);
    }
    assert_eq!(parse_i32("42"), Some(42));
    assert_eq!(parse_i32("-2147483648"), Some(i32::MIN));
    assert_eq!(parse_i32("2147483648"), None);
}

#[test]
fn segment_after_last_dot() {
    let s = chars_of("192.168.1.42");
    assert_eq!(last_segment_start(&s), 10);
    assert_eq!(last_segment_start(&chars_of("nodots")), 0);
    assert_eq!(last_segment_start(&chars_of("1.2.")), 4);
}
