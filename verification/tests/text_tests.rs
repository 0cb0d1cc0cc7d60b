use kern::text::{push_decimal, starts_with, str_eq, str_lt};

#[test]
fn texts_are_equal_by_their_characters() {
    assert!(str_eq("", ""));
    assert!(str_eq("abc", "abc"));
    assert!(!str_eq("abc", "abd"));
    assert!(!str_eq("abc", "ab"));
    assert!(!str_eq("ab", "abc"));
    assert!(str_eq("é", "é"));
    assert!(!str_eq("e", "é"));
}

#[test]
fn texts_are_ordered_like_strings() {
    let samples = ["", "a", "A", "ab", "abc", "b", "é", "z", "10", "9"];
    for a in samples {
        for b in samples {
            assert_eq!(str_lt(a, b), a < b, "{:?} {:?}", a, b);
        }
    }
}

#[test]
fn decimals_have_no_leading_zeros() {
    for (n, text) in [(0u32, "0"), (7, "7"), (10, "10"), (1234, "1234"), (u32::MAX, "4294967295")] {
        let mut out = String::from("n=");
        push_decimal(&mut out, n);
        assert_eq!(out, format!("n={}", text));
    }
}

#[test]
fn prefixes_are_told() {
    assert!(starts_with("VmRSS:\t12 kB", "VmRSS:"));
    assert!(starts_with("abc", ""));
    assert!(starts_with("abc", "abc"));
    assert!(!starts_with("ab", "abc"));
    assert!(!starts_with("xabc", "abc"));
    assert!(starts_with("été", "é"));
    assert!(!starts_with("ete", "é"));
}
