use v_langx::error::{ParseErrorKind, RuntimeErrorKind};
use v_langx::runtime::{render_query_output, Runtime};
use v_langx::ast::{Expr, Statement};
use v_langx::state::CertificationState;

const TREASURY: &str = "\
vector treasury: free = (100, 25, 0);
vector reserve: free = (0, 0, 0);
wallet treasury_owner = bind(pk_treasury);
certify treasury with ctx(mode=\"a\", level=2);
transfer treasury to reserve amount 10;
project treasury into staking_pool amount 20 policy staking_v1;
reconstruct treasury from proj_001;
query treasury.certification;
query treasury.magnitude;
record last;
";

#[test]
fn treasury_program_outputs() {
    let mut rt = Runtime::new();
    assert!(rt.fits(TREASURY));
    let report = rt.execute_source(TREASURY).unwrap();
    assert_eq!(
        report.outputs,
        vec![
            "created treasury",
            "created reserve",
            "wallet treasury_owner bound",
            "certify treasury -> true",
            "transfer treasury->reserve amount=10 drain=0",
            "project treasury -> proj_001",
            "reconstruct treasury from proj_001",
            "treasury.certification => Certified",
            "treasury.magnitude => 115",
            "last => Event(evt_0000000000000008, op=RECONSTRUCT, entity=treasury, hash=fc8dcd03d1429891718e9f2fa0dad7cb)",
        ]
    );
}

#[test]
fn treasury_program_event_hashes() {
    let mut rt = Runtime::new();
    let report = rt.execute_source(TREASURY).unwrap();
    // a transfer reports the hash of the source's event only
    assert_eq!(
        report.events,
        vec![
            "cfdf556e2c16746c48a967361a9daf26",
            "e5ff55c0474bec553a0ead614267b06a",
            "ed47301de5fe30e8ddb231022d4eb993",
            "80a441b514f66cfcb2a350e04e8c328b",
            "cec65e265c9ebd4c1b3e3ce9c0544172",
            "08315f7fdc6a3aa082f079b9414dedf6",
            "fc8dcd03d1429891718e9f2fa0dad7cb",
        ]
    );
    let events = &report.final_state.events;
    assert_eq!(events.len(), 8);
    assert_eq!(events[5].operation, "TRANSFER_RECEIVE");
    assert_eq!(events[5].event_hash, "6198547ab1a693e624bf177d1d687d20");
    assert_eq!(events[5].parent_hashes, vec!["cec65e265c9ebd4c1b3e3ce9c0544172".to_string()]);
}

#[test]
fn treasury_program_final_state() {
    let mut rt = Runtime::new();
    rt.execute_source(TREASURY).unwrap();
    let treasury = rt.state.vectors.get("treasury").unwrap();
    assert_eq!(treasury.components, vec![92, 23, 0]);
    assert_eq!(treasury.certification, CertificationState::Certified);
    assert_eq!(treasury.auth_ratio, "0.9625");
    let reserve = rt.state.vectors.get("reserve").unwrap();
    assert_eq!(reserve.components, vec![8, 2, 0]);
    let proj = rt.state.projections.get("proj_001").unwrap();
    assert!(proj.consumed);
    assert_eq!(proj.locked, vec![16, 4, 0]);
    assert_eq!(proj.remainder, vec![76, 19, 0]);
    assert_eq!(proj.settlement_result, Some("full_return".to_string()));
    assert_eq!(rt.state.logical_clock, 8);
    assert_eq!(rt.state.last_event_hash, Some("fc8dcd03d1429891718e9f2fa0dad7cb".to_string()));
}

#[test]
fn event_history_is_chained() {
    let mut rt = Runtime::new();
    rt.execute_source(TREASURY).unwrap();
    let events = &rt.state.events;
    assert!(events[0].parent_hashes.is_empty());
    for i in 1..events.len() {
        assert_eq!(events[i].parent_hashes, vec![events[i - 1].event_hash.clone()]);
        assert!(events[i - 1].logical_clock < events[i].logical_clock);
        assert_eq!(events[i].eid, format!("evt_{:016x}", i + 1));
        assert_eq!(events[i].timestamp, 1_700_000_000 + events[i].logical_clock);
    }
}

#[test]
fn replaying_a_program_gives_the_same_history() {
    let mut a = Runtime::new();
    let mut b = Runtime::new();
    let ra = a.execute_source(TREASURY).unwrap();
    let rb = b.execute_source(TREASURY).unwrap();
    assert_eq!(ra.outputs, rb.outputs);
    assert_eq!(ra.events, rb.events);
    assert_eq!(a.state.events, b.state.events);
}

const README_EXAMPLE: &str = "\
vector treasury: free = (100, 25, 0);
wallet treasury_owner = bind(pk_treasury);
certify treasury with ctx(space=\"global\", op=\"transfer\", risk=\"normal\");
transfer treasury to reserve amount 10;
project treasury into staking_pool amount 20 policy staking_v1;
reconstruct treasury from proj_001;
query treasury.certification;
";

#[test]
fn readme_example_parses() {
    let rt = Runtime::new();
    let p = rt.parse(README_EXAMPLE).unwrap();
    assert_eq!(p.statements.len(), 7);
    match &p.statements[2] {
        Statement::Certify(c) => {
            assert_eq!(c.target, "treasury");
            let names: Vec<Option<String>> = c.context.args.iter().map(|a| a.name.clone()).collect();
            assert_eq!(names, vec![Some("space".to_string()), Some("op".to_string()), Some("risk".to_string())]);
            assert_eq!(c.context.args[1].value, Expr::String("transfer".to_string()));
        }
        _ => panic!("expected a certification"),
    }
}

#[test]
fn readme_example_runs_until_the_missing_reserve() {
    let mut rt = Runtime::new();
    let err = rt.execute_source(README_EXAMPLE).unwrap_err();
    assert_eq!(err.kind, RuntimeErrorKind::UnknownSymbol("reserve".to_string()));
    let t = rt.state.vectors.get("treasury").unwrap();
    assert_eq!(t.certification, CertificationState::Certified);
    assert_eq!(t.auth_ratio, "1.0000");
    assert_eq!(rt.state.events[2].params, "ctx(op=String(\"transfer\"), risk=String(\"normal\"), space=String(\"global\"))");
}

#[test]
fn failed_parse_changes_nothing() {
    let mut rt = Runtime::new();
    rt.execute_source("vector a: free = (1);").unwrap();
    let err = rt.execute_source("vector b: free = (1)").unwrap_err();
    assert_eq!(
        err.kind,
        RuntimeErrorKind::Parse(ParseErrorKind::Message("unexpected token `Eof` at 20..20, expected `;`".to_string()))
    );
    assert_eq!(rt.state.events.len(), 1);
    assert!(rt.state.vectors.get("b").is_none());
}

#[test]
fn error_keeps_earlier_operations() {
    let mut rt = Runtime::new();
    let err = rt.execute_source("vector a: free = (5, 5);\ndrain missing by 1;\nvector b: free = (1);").unwrap_err();
    assert_eq!(err.kind, RuntimeErrorKind::UnknownSymbol("missing".to_string()));
    assert_eq!(err.message(), "unknown symbol `missing`");
    assert!(rt.state.vectors.get("a").is_some());
    assert!(rt.state.vectors.get("b").is_none());
    assert_eq!(rt.state.events.len(), 1);
}

#[test]
fn queries_do_not_change_history() {
    let mut rt = Runtime::new();
    rt.execute_source("vector a: unit = (3, 4);").unwrap();
    let before = rt.state.events.clone();
    let report = rt.execute_source("query a; query a.type; query a.owner; record last;").unwrap();
    assert_eq!(report.events.len(), 0);
    assert_eq!(rt.state.events, before);
    assert_eq!(report.outputs[0], "a => a:unit (3, 4) certification=Pending auth_ratio=0.0000");
    assert_eq!(report.outputs[1], "a.type => unit");
    assert_eq!(report.outputs[2], "a.owner => unbound");
}

#[test]
fn resolve_query_paths() {
    let mut rt = Runtime::new();
    rt.execute_source(
        "vector v: free = (10, 20);\nwallet w = bind(\"pk1\");\nproject v into pool amount 3;\ncontract c { action go(x=1); action stop; }",
    )
    .unwrap();
    assert_eq!(rt.resolve_query("v.vector").unwrap(), "(9, 18)");
    assert_eq!(rt.resolve_query("v.magnitude").unwrap(), "27");
    assert_eq!(rt.resolve_query("v.certification").unwrap(), "Pending");
    assert_eq!(rt.resolve_query("v.auth_ratio").unwrap(), "0.0000");
    assert_eq!(rt.resolve_query("v.other.path").unwrap(), "v:free (9, 18)");
    assert_eq!(rt.resolve_query("w").unwrap(), "wallet w = pk1");
    assert_eq!(rt.resolve_query("w.pk").unwrap(), "pk1");
    assert_eq!(rt.resolve_query("w.x").unwrap(), "wallet w = pk1");
    assert_eq!(rt.resolve_query("proj_001").unwrap(), "projection proj_001 from v");
    assert_eq!(rt.resolve_query("proj_001.status").unwrap(), "active");
    assert_eq!(rt.resolve_query("proj_001.environment").unwrap(), "pool");
    assert_eq!(rt.resolve_query("proj_001.policy").unwrap(), "none");
    assert_eq!(rt.resolve_query("proj_001.locked").unwrap(), "(1, 2)");
    assert_eq!(rt.resolve_query("c").unwrap(), "contract c with 2 actions");
    let err = rt.resolve_query("nobody.vector").unwrap_err();
    assert_eq!(err.kind, RuntimeErrorKind::UnknownSymbol("nobody".to_string()));
    let err = rt.resolve_query("").unwrap_err();
    assert_eq!(err.kind, RuntimeErrorKind::UnknownSymbol("".to_string()));
}

#[test]
fn resolve_record_lookups() {
    let mut rt = Runtime::new();
    let err = rt.resolve_record("last").unwrap_err();
    assert_eq!(err.kind, RuntimeErrorKind::RecordMissing("last".to_string()));
    rt.execute_source("vector a: free = (100, 25, 0);").unwrap();
    let text = "Event(evt_0000000000000001, op=CREATE, entity=a, hash=".to_string();
    let by_last = rt.resolve_record("  last_event \n").unwrap();
    assert!(by_last.starts_with(&text));
    let by_id = rt.resolve_record("evt_0000000000000001").unwrap();
    assert_eq!(by_id, by_last);
    let hash = rt.state.events[0].event_hash.clone();
    assert_eq!(rt.resolve_record(&hash).unwrap(), by_last);
    let err = rt.resolve_record(" evt_0000000000000002 ").unwrap_err();
    assert_eq!(err.kind, RuntimeErrorKind::RecordMissing("evt_0000000000000002".to_string()));
}

#[test]
fn render_query_output_joins_with_arrow() {
    assert_eq!(render_query_output("a.b", "7"), "a.b => 7");
}

#[test]
fn fits_rejects_overflowing_magnitude() {
    let mut rt = Runtime::new();
    let big = u128::MAX.to_string();
    let src = format!("vector a: free = ({big}, 1);");
    assert!(rt.fits(&src));
    rt.execute_source(&src).unwrap();
    assert!(!rt.fits("query a.magnitude;"));
    assert!(rt.fits("query a.type;"));
    assert!(!rt.fits("drain a by 1;"));
    assert!(rt.fits("this does not parse"));
}

#[test]
fn fits_near_the_end_of_the_clock() {
    let mut rt = Runtime::new();
    rt.execute_source("vector a: free = (5);").unwrap();
    rt.state.logical_clock = u64::MAX - 1_700_000_000;
    // a creation would stamp its event past the last timestamp
    assert!(!rt.fits("vector b: free = (1);"));
    // a refused operation records nothing and needs no room
    assert!(rt.fits("vector a: free = (1);"));
    assert!(rt.fits("drain nobody by 1;"));
    assert!(rt.fits("query a.magnitude;"));
    rt.state.logical_clock = u64::MAX - 1_700_000_003;
    assert!(rt.fits("vector b: unit = (1);\ntransfer a to b amount 1;"));
    rt.state.logical_clock = u64::MAX - 1_700_000_002;
    // room for the creation, but not for both events of the transfer
    assert!(!rt.fits("vector b: free = (1);\ntransfer a to b amount 1;"));
}

#[test]
fn runtimes_and_reports_clone() {
    let mut rt = Runtime::new();
    let report = rt.execute_source("vector a: free = (1, 2);\nquery a;").unwrap();
    let copy = report.clone();
    assert_eq!(copy.outputs, report.outputs);
    assert_eq!(copy.events, report.events);
    assert_eq!(copy.final_state.events, report.final_state.events);
    let rt2 = rt.clone();
    assert_eq!(rt2.state.events, rt.state.events);
    assert_eq!(rt2.state.logical_clock, 1);
}
