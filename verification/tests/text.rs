use ruperf::text::{
    decimal_string, push_decimal, push_signed_decimal, same_text, split_commas,
};

fn signed(n: i128) -> String {
    let mut s = String::new();
    push_signed_decimal(&mut s, n);
    s
}

#[test]
fn decimal_of_small_numbers() {
    assert_eq!(decimal_string(0), "0");
    assert_eq!(decimal_string(7), "7");
    assert_eq!(decimal_string(9), "9");
    assert_eq!(decimal_string(10), "10");
    assert_eq!(decimal_string(1234567890), "1234567890");
    assert_eq!(decimal_string(1000), "1000");
}

#[test]
fn decimal_agrees_with_the_standard_numeral() {
    for n in [0u128, 1, 99, 100, 101, 4294967295, 4294967296, u64::MAX as u128, u128::MAX] {
        assert_eq!(decimal_string(n), n.to_string());
    }
    for n in 0u128..2000 {
        assert_eq!(decimal_string(n), n.to_string());
    }
}

#[test]
fn decimal_is_appended_to_what_is_there() {
    let mut s = String::from("n=");
    push_decimal(&mut s, 42);
    assert_eq!(s, "n=42");
    push_signed_decimal(&mut s, -7);
    assert_eq!(s, "n=42-7");
}

#[test]
fn signed_decimal_has_a_minus_below_zero() {
    assert_eq!(signed(0), "0");
    assert_eq!(signed(5), "5");
    assert_eq!(signed(-5), "-5");
    assert_eq!(signed(-120), "-120");
    assert_eq!(signed(i64::MAX as i128), i64::MAX.to_string());
    assert_eq!(signed(i64::MIN as i128), i64::MIN.to_string());
    assert_eq!(signed(i128::MAX), i128::MAX.to_string());
    assert_eq!(signed(i128::MIN), i128::MIN.to_string());
    assert_eq!(signed(i128::MIN + 1), (i128::MIN + 1).to_string());
}

#[test]
fn same_text_compares_letter_for_letter() {
    assert!(same_text("cycles", "cycles"));
    assert!(same_text("", ""));
    assert!(!same_text("cycles", "Cycles"));
    assert!(!same_text("cycles", "cycles "));
    assert!(!same_text("1", "01"));
}

#[test]
fn split_gives_the_pieces_between_commas() {
    assert_eq!(split_commas("a,b,c"), vec!["a", "b", "c"]);
    assert_eq!(split_commas("12"), vec!["12"]);
    assert_eq!(split_commas("0,3,17"), vec!["0", "3", "17"]);
}

#[test]
fn split_keeps_empty_pieces() {
    assert_eq!(split_commas(""), vec![""]);
    assert_eq!(split_commas(","), vec!["", ""]);
    assert_eq!(split_commas("a,,b"), vec!["a", "", "b"]);
    assert_eq!(split_commas(",a"), vec!["", "a"]);
    assert_eq!(split_commas("a,"), vec!["a", ""]);
}

#[test]
fn split_agrees_with_the_standard_split() {
    for s in ["", "1", "1,2", ",", ",,", "a, b", "é,ü,,ß", "0,1,2,3,4,5,6,7,8,9,10", "x,"] {
        let expected: Vec<String> = s.split(',').map(|p| p.to_string()).collect();
        assert_eq!(split_commas(s), expected, "{:?}", s);
    }
}
