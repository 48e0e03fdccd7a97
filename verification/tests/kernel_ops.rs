use v_langx::ast::VectorType;
use v_langx::error::RuntimeErrorKind;
use v_langx::kernel::{execute_kernel_op, type_compatible_for_transfer, KernelOp};
use v_langx::state::{CertificationState, NetworkState};

fn create(state: &mut NetworkState, name: &str, ty: VectorType, c: Vec<u128>) {
    let op = KernelOp::CreateVector { name: name.to_string(), vector_type: ty, components: c };
    execute_kernel_op(state, op).unwrap();
}

fn transfer(source: &str, destination: &str, amount: u128, drain: u128, policy: Option<&str>) -> KernelOp {
    KernelOp::Transfer {
        source: source.to_string(),
        destination: destination.to_string(),
        amount,
        drain,
        policy: policy.map(|p| p.to_string()),
    }
}

#[test]
fn create_vector_records_an_event() {
    let mut s = NetworkState::new();
    let op = KernelOp::CreateVector { name: "a".to_string(), vector_type: VectorType::Free, components: vec![100, 25, 0] };
    let r = execute_kernel_op(&mut s, op).unwrap();
    assert_eq!(r.output, Some("created a".to_string()));
    let e = r.record.unwrap();
    assert_eq!(e.eid, "evt_0000000000000001");
    assert_eq!(e.params, "type=free");
    assert_eq!(e.logical_clock, 1);
    assert_eq!(e.timestamp, 1_700_000_001);
    assert!(e.parent_hashes.is_empty());
    assert_eq!(s.events.len(), 1);
    let v = s.vectors.get("a").unwrap();
    assert_eq!(v.certification, CertificationState::Pending);
    assert_eq!(v.auth_ratio, "0.0000");
    assert_eq!(v.owner, None);
}

#[test]
fn create_event_hash_matches_known_value() {
    let mut s = NetworkState::new();
    let op = KernelOp::CreateVector { name: "treasury".to_string(), vector_type: VectorType::Free, components: vec![100, 25, 0] };
    let e = execute_kernel_op(&mut s, op).unwrap().record.unwrap();
    assert_eq!(e.event_hash, "cfdf556e2c16746c48a967361a9daf26");
    assert_eq!(e.signature, "3eab0b6e9e6ef303e51379a4790ff9bb");
    assert_eq!(s.last_event_hash, Some(e.event_hash.clone()));
}

#[test]
fn duplicate_vector_is_refused_and_changes_nothing() {
    let mut s = NetworkState::new();
    create(&mut s, "a", VectorType::Free, vec![1]);
    let op = KernelOp::CreateVector { name: "a".to_string(), vector_type: VectorType::Unit, components: vec![2] };
    let err = execute_kernel_op(&mut s, op).unwrap_err();
    assert_eq!(err.kind, RuntimeErrorKind::DuplicateSymbol("a".to_string()));
    assert_eq!(s.events.len(), 1);
    assert_eq!(s.vectors.get("a").unwrap().components, vec![1]);
}

#[test]
fn bind_wallet_signs_with_its_key() {
    let mut s = NetworkState::new();
    let r = execute_kernel_op(&mut s, KernelOp::BindWallet { name: "w".to_string(), public_key: "pk9".to_string() })
        .unwrap();
    assert_eq!(r.output, Some("wallet w bound".to_string()));
    let e = r.record.unwrap();
    assert_eq!(e.actor_pk, "pk9");
    assert_eq!(e.proof, "wallet-binding");
    assert_eq!(e.params, "public_key=pk9");
    let err = execute_kernel_op(&mut s, KernelOp::BindWallet { name: "w".to_string(), public_key: "x".to_string() })
        .unwrap_err();
    assert_eq!(err.kind, RuntimeErrorKind::DuplicateSymbol("w".to_string()));
}

#[test]
fn certify_sets_state_and_ratio() {
    let mut s = NetworkState::new();
    create(&mut s, "a", VectorType::Free, vec![4]);
    let op = KernelOp::Certify { target: "a".to_string(), context: "ctx()".to_string(), auth_ratio: "0.5000".to_string(), certified: false };
    let r = execute_kernel_op(&mut s, op).unwrap();
    assert_eq!(r.output, Some("certify a -> false".to_string()));
    let v = s.vectors.get("a").unwrap();
    assert_eq!(v.certification, CertificationState::Uncertified);
    assert_eq!(v.auth_ratio, "0.5000");
    let e = r.record.unwrap();
    assert_eq!(e.v_before, vec![4]);
    assert_eq!(e.v_after, vec![4]);
    assert_eq!(e.params, "ctx()");
    assert!(!e.certified);
    let op = KernelOp::Certify { target: "b".to_string(), context: "c".to_string(), auth_ratio: "1.0000".to_string(), certified: true };
    assert_eq!(execute_kernel_op(&mut s, op).unwrap_err().kind, RuntimeErrorKind::UnknownSymbol("b".to_string()));
}

#[test]
fn transfer_moves_amount_and_records_two_events() {
    let mut s = NetworkState::new();
    create(&mut s, "src", VectorType::Free, vec![100, 25, 0]);
    create(&mut s, "dst", VectorType::Position, vec![1, 1, 1]);
    let r = execute_kernel_op(&mut s, transfer("src", "dst", 10, 4, Some("p1"))).unwrap();
    assert_eq!(r.output, Some("transfer src->dst amount=10 drain=4".to_string()));
    assert_eq!(s.vectors.get("src").unwrap().components, vec![92, 23, 0]);
    // the destination receives the allocation of 10 - 4 = 6: 4.8 and 1.2, rounded to 5 and 1
    assert_eq!(s.vectors.get("dst").unwrap().components, vec![6, 2, 1]);
    assert_eq!(s.events.len(), 4);
    assert_eq!(s.events[2].operation, "TRANSFER");
    assert_eq!(s.events[3].operation, "TRANSFER_RECEIVE");
    assert_eq!(s.events[2].params, "amount=10, drain=4, policy=p1");
    assert_eq!(r.record.unwrap().event_hash, s.events[2].event_hash);
}

#[test]
fn transfer_conserves_the_source_total() {
    let mut s = NetworkState::new();
    create(&mut s, "src", VectorType::Free, vec![7, 11, 13]);
    create(&mut s, "dst", VectorType::Free, vec![0, 0, 0]);
    execute_kernel_op(&mut s, transfer("src", "dst", 10, 0, None)).unwrap();
    let after_src: u128 = s.vectors.get("src").unwrap().components.iter().sum();
    let after_dst: u128 = s.vectors.get("dst").unwrap().components.iter().sum();
    assert_eq!(after_src + 10, 31);
    assert_eq!(after_dst, 10);
}

#[test]
fn transfer_refusals() {
    let mut s = NetworkState::new();
    create(&mut s, "u", VectorType::Unit, vec![5, 5]);
    create(&mut s, "f", VectorType::Free, vec![5, 5]);
    create(&mut s, "f3", VectorType::Free, vec![5, 5, 5]);
    let n = s.events.len();
    let err = execute_kernel_op(&mut s, transfer("nope", "f", 1, 0, None)).unwrap_err();
    assert_eq!(err.kind, RuntimeErrorKind::UnknownSymbol("nope".to_string()));
    let err = execute_kernel_op(&mut s, transfer("f", "nope", 1, 0, None)).unwrap_err();
    assert_eq!(err.kind, RuntimeErrorKind::UnknownSymbol("nope".to_string()));
    let err = execute_kernel_op(&mut s, transfer("u", "f", 1, 0, None)).unwrap_err();
    assert_eq!(err.kind, RuntimeErrorKind::TypeMismatch { expected: "unit".to_string(), found: "free".to_string() });
    let err = execute_kernel_op(&mut s, transfer("f", "f3", 1, 0, None)).unwrap_err();
    assert_eq!(err.kind, RuntimeErrorKind::InvalidOperation("source and destination dimensions must match".to_string()));
    let err = execute_kernel_op(&mut s, transfer("f", "u", 11, 0, None)).unwrap_err();
    assert_eq!(err.kind, RuntimeErrorKind::InvalidOperation("allocation exceeded source balance".to_string()));
    assert_eq!(err.message(), "invalid operation: allocation exceeded source balance");
    assert_eq!(s.events.len(), n);
    assert_eq!(s.vectors.get("f").unwrap().components, vec![5, 5]);
}

#[test]
fn type_compatibility_table() {
    let all = [VectorType::Position, VectorType::Free, VectorType::Bound, VectorType::Unit, VectorType::Zero, VectorType::Spatial];
    for a in all {
        for b in all {
            assert_eq!(type_compatible_for_transfer(a, b), a == VectorType::Free || a == b);
        }
    }
}

#[test]
fn drain_and_its_refusal() {
    let mut s = NetworkState::new();
    create(&mut s, "a", VectorType::Free, vec![3, 1]);
    let r = execute_kernel_op(&mut s, KernelOp::Drain { target: "a".to_string(), amount: 2 }).unwrap();
    assert_eq!(r.output, Some("drain a amount=2".to_string()));
    // 1.5 and 0.5: both remainders equal, the earlier component rounds up
    assert_eq!(s.vectors.get("a").unwrap().components, vec![1, 1]);
    let err = execute_kernel_op(&mut s, KernelOp::Drain { target: "a".to_string(), amount: 3 }).unwrap_err();
    assert_eq!(err.kind, RuntimeErrorKind::InvalidOperation("allocation exceeded source balance".to_string()));
}

#[test]
fn drain_of_zero_vector_changes_nothing_but_records() {
    let mut s = NetworkState::new();
    create(&mut s, "z", VectorType::Zero, vec![0, 0]);
    execute_kernel_op(&mut s, KernelOp::Drain { target: "z".to_string(), amount: 5 }).unwrap();
    assert_eq!(s.vectors.get("z").unwrap().components, vec![0, 0]);
    assert_eq!(s.events.len(), 2);
}

#[test]
fn project_then_reconstruct_restores_the_vector() {
    let mut s = NetworkState::new();
    create(&mut s, "a", VectorType::Free, vec![10, 20]);
    let op = KernelOp::Project {
        source: "a".to_string(),
        environment: "pool".to_string(),
        amount: 3,
        policy: None,
        projection_id: "p".to_string(),
    };
    let r = execute_kernel_op(&mut s, op).unwrap();
    assert_eq!(r.output, Some("project a -> p".to_string()));
    assert_eq!(r.record.unwrap().params, "environment=pool, amount=3, projection_id=p, policy=none");
    assert_eq!(s.vectors.get("a").unwrap().components, vec![9, 18]);
    let r = execute_kernel_op(&mut s, KernelOp::Reconstruct { target: "a".to_string(), projection_id: "p".to_string() })
        .unwrap();
    assert_eq!(r.output, Some("reconstruct a from p".to_string()));
    assert_eq!(s.vectors.get("a").unwrap().components, vec![10, 20]);
    let err = execute_kernel_op(&mut s, KernelOp::Reconstruct { target: "a".to_string(), projection_id: "p".to_string() })
        .unwrap_err();
    assert_eq!(err.kind, RuntimeErrorKind::ProjectionConsumed("p".to_string()));
    let err = execute_kernel_op(&mut s, KernelOp::Reconstruct { target: "a".to_string(), projection_id: "q".to_string() })
        .unwrap_err();
    assert_eq!(err.kind, RuntimeErrorKind::ProjectionMissing("q".to_string()));
}

#[test]
fn refused_reconstruct_leaves_the_projection_live() {
    let mut s = NetworkState::new();
    create(&mut s, "a", VectorType::Free, vec![10, 20]);
    create(&mut s, "c", VectorType::Free, vec![1, 2, 3]);
    let op = KernelOp::Project {
        source: "a".to_string(),
        environment: "pool".to_string(),
        amount: 3,
        policy: Some("keep".to_string()),
        projection_id: "p".to_string(),
    };
    execute_kernel_op(&mut s, op).unwrap();
    let n = s.events.len();
    let err = execute_kernel_op(&mut s, KernelOp::Reconstruct { target: "b".to_string(), projection_id: "p".to_string() })
        .unwrap_err();
    assert_eq!(err.kind, RuntimeErrorKind::UnknownSymbol("b".to_string()));
    let err = execute_kernel_op(&mut s, KernelOp::Reconstruct { target: "c".to_string(), projection_id: "p".to_string() })
        .unwrap_err();
    assert_eq!(err.kind, RuntimeErrorKind::InvalidOperation("vector dimensions must match".to_string()));
    assert_eq!(s.events.len(), n);
    let p = s.projections.get("p").unwrap();
    assert!(!p.consumed);
    assert_eq!(p.settlement_result, None);
    assert_eq!(p.policy, Some("keep".to_string()));
    let r = execute_kernel_op(&mut s, KernelOp::Reconstruct { target: "a".to_string(), projection_id: "p".to_string() });
    assert!(r.is_ok());
    assert!(s.projections.get("p").unwrap().consumed);
}

#[test]
fn queries_pass_through_the_kernel() {
    let mut s = NetworkState::new();
    let r = execute_kernel_op(&mut s, KernelOp::Query { expr: "a.b".to_string() }).unwrap();
    assert_eq!(r.output, Some("a.b".to_string()));
    assert!(r.record.is_none());
    let r = execute_kernel_op(&mut s, KernelOp::Record { expr: "last".to_string() }).unwrap();
    assert_eq!(r.output, Some("last".to_string()));
    assert_eq!(s.events.len(), 0);
    assert_eq!(s.logical_clock, 0);
}

#[test]
fn contracts_and_their_actions() {
    let mut s = NetworkState::new();
    let op = KernelOp::Contract { name: "c".to_string(), actions: vec!["go(x=1)".to_string(), "stop()".to_string()] };
    let r = execute_kernel_op(&mut s, op).unwrap();
    assert_eq!(r.output, Some("contract c deployed".to_string()));
    assert_eq!(r.record.unwrap().params, "actions=go(x=1); stop()");
    let op = KernelOp::ContractAction { contract: "c".to_string(), action: "go".to_string(), args: vec!["x=1".to_string(), "2".to_string()] };
    let r = execute_kernel_op(&mut s, op).unwrap();
    assert_eq!(r.output, Some("contract action c::go".to_string()));
    let e = r.record.unwrap();
    assert_eq!(e.params, "action=go, args=x=1, 2");
    assert_eq!(e.proof, "contract-action-proof");
    let op = KernelOp::Contract { name: "c".to_string(), actions: vec![] };
    assert_eq!(execute_kernel_op(&mut s, op).unwrap_err().kind, RuntimeErrorKind::DuplicateSymbol("c".to_string()));
    let op = KernelOp::ContractAction { contract: "d".to_string(), action: "go".to_string(), args: vec![] };
    assert_eq!(execute_kernel_op(&mut s, op).unwrap_err().kind, RuntimeErrorKind::ContractMissing("d".to_string()));
}

#[test]
fn kernel_results_clone() {
    let mut s = NetworkState::new();
    let op = KernelOp::CreateVector { name: "a".to_string(), vector_type: VectorType::Free, components: vec![3] };
    let r = execute_kernel_op(&mut s, op).unwrap();
    assert_eq!(r.clone(), r);
}
