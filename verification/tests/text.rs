use quest_core::text::push_decimal;
use quest_core::text::Text;

#[test]
fn decimal_numerals() {
    for (n, expected) in [
        (0usize, "0"),
        (7, "7"),
        (9, "9"),
        (10, "10"),
        (42, "42"),
        (100, "100"),
        (909, "909"),
        (1234567890, "1234567890"),
    ] {
        let mut out = String::new();
        push_decimal(&mut out, n);
        assert_eq!(out, expected);
    }
    let mut out = String::from("id ");
    push_decimal(&mut out, usize::MAX);
    assert_eq!(out, format!("id {}", usize::MAX));
}

#[test]
fn text_holds_its_characters() {
    let a = Text::from_str("héllo");
    let b = Text::new(String::from("héllo"));
    let c = Text::from_str("hello");
    assert!(a == b);
    assert!(a != c);
    assert_eq!(a.as_str(), "héllo");
    assert!(a.clone() == a);
    assert_eq!(Text::typename(), "Text");
}
