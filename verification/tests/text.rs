use meta_mystia_network::text::{self, append_decimal, str_eq, str_less};

#[test]
fn decimal_numbers() {
    for n in [0, 7, 10, 99, 100, 65535, u64::MAX] {
        let mut out = String::from("n=");
        append_decimal(&mut out, n);
        assert_eq!(out, format!("n={n}"));
    }
}

#[test]
fn texts_are_joined() {
    assert_eq!(text::concat("ab", "cd"), "abcd");
    assert_eq!(text::concat("", "ä"), "ä");
}

#[test]
fn order_of_texts() {
    let sorted = ["", "A", "a", "aa", "b", "z", "é", "名", "😀"];
    for (i, a) in sorted.iter().enumerate() {
        for (j, b) in sorted.iter().enumerate() {
            assert_eq!(str_less(a, b), i < j);
            assert_eq!(str_less(a, b), a < b);
            assert_eq!(str_eq(a, b), i == j);
        }
    }
}
