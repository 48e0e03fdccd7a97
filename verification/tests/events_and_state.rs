use v_langx::ast::VectorType;
use v_langx::event::{canonical_event_payload, canonical_join, derive_event_hash, derive_signature, derive_timestamp, fnv1a_128, type_to_string, vector_to_string};
use v_langx::state::{CertificationState, NetworkState, VectorState};
use v_langx::strmap::StrMap;

#[test]
fn fnv_known_values() {
    assert_eq!(fnv1a_128(""), "6c62272e07bb014262b821756295c58d");
    assert_eq!(fnv1a_128("a"), "d228cb696f1a8caf78912b704e4a8964");
    assert_eq!(fnv1a_128("hello"), "e3e1efd54283d94f7081314b599d31b3");
    assert_eq!(derive_event_hash("a"), fnv1a_128("a"));
}

#[test]
fn signature_hashes_the_joined_fields() {
    assert_eq!(derive_signature("h", "pk", 7), fnv1a_128("h:pk:7"));
    assert_eq!(derive_timestamp(5), 1_700_000_005);
}

#[test]
fn text_helpers() {
    assert_eq!(canonical_join(&["a".to_string(), "b".to_string(), "c".to_string()]), "a|b|c");
    assert_eq!(canonical_join(&[]), "");
    assert_eq!(vector_to_string(&[]), "()");
    assert_eq!(vector_to_string(&[1, 20, 300]), "(1, 20, 300)");
    assert_eq!(type_to_string(VectorType::Bound), "bound");
}

#[test]
fn payload_is_sorted_by_field() {
    let p = canonical_event_payload(
        "evt_1", &["p1".to_string(), "p2".to_string()], "global", "a", &[1], &[2, 3], "OP", "x=1", "1.0000", true, "kernel", "pr",
        4, 5, "sig",
    );
    assert_eq!(
        p,
        "actor_pk=kernel\nauth_ratio=1.0000\ncertified=true\neid=evt_1\nentity_id=a\nlogical_clock=4\noperation=OP\nparams=x=1\nparents=p1|p2\nproof=pr\nregion_id=global\nsignature=sig\ntimestamp=5\nv_after=(2, 3)\nv_before=(1)"
    );
}

#[test]
fn magnitude_and_zero() {
    let v = VectorState {
        name: "v".to_string(),
        vector_type: VectorType::Free,
        components: vec![3, 0, 4],
        owner: None,
        meta: StrMap::new(),
        certification: CertificationState::Pending,
        auth_ratio: "0.0000".to_string(),
    };
    assert_eq!(v.magnitude(), 7);
    assert!(!v.is_zero());
    let z = VectorState { components: vec![0, 0], ..v };
    assert!(z.is_zero());
    assert_eq!(z.magnitude(), 0);
}

#[test]
fn clock_saturates() {
    let mut s = NetworkState::new();
    assert_eq!(s.next_clock(), 1);
    assert_eq!(s.logical_clock, 1);
    s.logical_clock = u64::MAX;
    assert_eq!(s.next_clock(), u64::MAX);
}

#[test]
fn certification_debug_names() {
    assert_eq!(CertificationState::Revoked.debug_string(), "Revoked");
    assert_eq!(CertificationState::Suspended.debug_string(), "Suspended");
}

#[test]
fn strmap_keeps_keys_sorted() {
    let mut m: StrMap<u128> = StrMap::new();
    m.insert("b".to_string(), 1);
    m.insert("a".to_string(), 2);
    m.insert("b".to_string(), 3);
    assert_eq!(m.keys, vec!["a".to_string(), "b".to_string()]);
    assert_eq!(m.vals, vec![2, 3]);
    assert_eq!(m.get("b"), Some(&3));
    assert!(!m.contains_key("c"));
}

#[test]
fn zero_exactly_when_magnitude_is_zero() {
    for c in [vec![], vec![0], vec![0, 0, 0], vec![0, 1], vec![5]] {
        let v = VectorState {
            name: "v".to_string(),
            vector_type: VectorType::Zero,
            components: c,
            owner: None,
            meta: StrMap::new(),
            certification: CertificationState::Pending,
            auth_ratio: "0.0000".to_string(),
        };
        assert_eq!(v.is_zero(), v.magnitude() == 0);
    }
}
