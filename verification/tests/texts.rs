//! Numbers in messages.

use anthroforge::text::{digit_text, push_decimal};

#[test]
fn decimal_numbers() {
    for n in [0u64, 7, 9, 10, 11, 99, 100, 1000001, 4294967295, u64::MAX] {
        let mut out = "n=".to_string();
        push_decimal(&mut out, n);
        assert_eq!(out, format!("n={n}"));
    }
    assert_eq!(digit_text(4), "4");
}
