use tested_trait::gensym;
use tested_trait::names::{make_test_fn_name, push_decimal, TEST_ALL_FN};

#[test]
fn gensym_counts_up() {
    let mut c: u64 = 0;
    assert_eq!(gensym(&mut c), 0);
    assert_eq!(gensym(&mut c), 1);
    assert_eq!(c, 2);
}

#[test]
fn decimal_numerals() {
    for (n, s) in [(0u64, "0"), (7, "7"), (10, "10"), (1203, "1203"), (u64::MAX, "18446744073709551615")] {
        let mut out = String::from("x");
        push_decimal(&mut out, n);
        assert_eq!(out, format!("x{}", s));
    }
}

#[test]
fn test_fn_names() {
    assert_eq!(make_test_fn_name("Allocator", 12), "tested_trait_test_impl_Allocator_12");
    assert_ne!(make_test_fn_name("A_1", 2), make_test_fn_name("A", 12));
    assert_eq!(TEST_ALL_FN, "__internal_tested_trait_test_all");
}
