use v_langx::allocation::{component_allocation, component_total, saturating_mul, vector_add_strict, vector_subtract};
use v_langx::error::RuntimeErrorKind;
use v_langx::strmap::StrMap;
use v_langx::text::{is_blank, push_debug_str, push_hex, u128_to_string};
use v_langx::value::{push_value_debug, Value};

#[test]
fn allocation_hands_out_exactly_the_amount() {
    let c = vec![7, 11, 13];
    let a = component_allocation(&c, 10);
    assert_eq!(a, vec![2, 4, 4]);
    assert_eq!(a.iter().sum::<u128>(), 10);
    let a = component_allocation(&c, 31);
    assert_eq!(a, c);
}

#[test]
fn allocation_ties_go_to_the_earlier_component() {
    assert_eq!(component_allocation(&vec![1, 1, 1], 2), vec![1, 1, 0]);
    assert_eq!(component_allocation(&vec![3, 1], 2), vec![2, 0]);
}

#[test]
fn allocation_of_nothing_or_from_nothing() {
    assert_eq!(component_allocation(&vec![0, 0], 5), vec![0, 0]);
    assert_eq!(component_allocation(&vec![4, 6], 0), vec![0, 0]);
    assert_eq!(component_allocation(&vec![], 5), Vec::<u128>::new());
}

#[test]
fn allocation_beyond_the_total_exceeds_components() {
    // more than the total: each share grows past its component
    assert_eq!(component_allocation(&vec![1, 3], 8), vec![2, 6]);
}

#[test]
fn subtract_and_its_error() {
    assert_eq!(vector_subtract(&vec![100, 25, 0], 10).unwrap(), vec![92, 23, 0]);
    assert_eq!(vector_subtract(&vec![0, 0], 3).unwrap(), vec![0, 0]);
    let err = vector_subtract(&vec![1, 3], 5).unwrap_err();
    assert_eq!(err.kind, RuntimeErrorKind::InvalidOperation("allocation exceeded source balance".to_string()));
}

#[test]
fn add_strict_and_its_error() {
    assert_eq!(vector_add_strict(&vec![1, u128::MAX], &vec![2, 5]).unwrap(), vec![3, u128::MAX]);
    let err = vector_add_strict(&vec![1], &vec![1, 2]).unwrap_err();
    assert_eq!(err.kind, RuntimeErrorKind::InvalidOperation("vector dimensions must match".to_string()));
}

#[test]
fn totals_and_saturation() {
    assert_eq!(component_total(&vec![1, 2, 3]), 6);
    assert_eq!(saturating_mul(u128::MAX, 2), u128::MAX);
    assert_eq!(saturating_mul(6, 7), 42);
}

#[test]
fn keys_follow_string_order() {
    let mut m: StrMap<u128> = StrMap::new();
    for (k, v) in [("b", 1), ("ab", 2), ("a", 3), ("\u{e9}", 4), ("z", 5), ("ab", 6)] {
        m.insert(k.to_string(), v);
    }
    assert_eq!(m.keys, vec!["a".to_string(), "ab".to_string(), "b".to_string(), "z".to_string(), "\u{e9}".to_string()]);
    assert_eq!(m.vals, vec![3, 6, 1, 5, 4]);
    assert!(m.contains_key("ab"));
    assert!(!m.contains_key("abc"));
    assert_eq!(m.index_of("z"), Some(3));
}

#[test]
fn number_and_debug_text() {
    assert_eq!(u128_to_string(0), "0");
    assert_eq!(u128_to_string(u128::MAX), "340282366920938463463374607431768211455");
    let mut s = String::new();
    push_hex(&mut s, 255, 4);
    assert_eq!(s, "00ff");
    let mut d = String::new();
    push_debug_str(&mut d, "a\"\n\tb");
    assert_eq!(d, format!("{:?}", "a\"\n\tb"));
    assert!(is_blank(" \t\n"));
    assert!(!is_blank(" x "));
}

#[test]
fn value_debug_matches_derived_form() {
    let mut out = String::new();
    push_value_debug(&mut out, &Value::Vector(vec![1, 2]));
    assert_eq!(out, "Vector([1, 2])");
    let mut out = String::new();
    push_value_debug(&mut out, &Value::Path(vec!["a".to_string(), "b".to_string()]));
    assert_eq!(out, "Path([\"a\", \"b\"])");
    let mut out = String::new();
    push_value_debug(&mut out, &Value::Null);
    assert_eq!(out, "Null");
}

#[test]
fn allocation_total_without_any_product_saturating() {
    // amount * total overflows, but no single product does
    let a = component_allocation(&vec![1, 1], u128::MAX);
    assert_eq!(a, vec![1u128 << 127, (1u128 << 127) - 1]);
    assert_eq!(a[0].checked_add(a[1]), Some(u128::MAX));
}
