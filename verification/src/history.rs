//! What every kernel operation keeps of the event history: it only grows,
//! a refused operation records nothing, queries change nothing, and the
//! events stay chained by their hashes, the clock counting them.
use vstd::prelude::*;
use crate::kernel::{KernelOpView, kernel_step, events_recorded, op_fits, next_event, event_id};
use crate::state::{NetworkStateView, with_event};

verus! {

/// The events are numbered from one, each names the one before it as its
/// parent (the first names none), the `i`-th carries clock `i` and
/// timestamp `1_700_000_000 + i`, the clock counts the events, and the
/// state remembers the last hash.
pub open spec fn chained(s: NetworkStateView) -> bool {
    &&& forall|i: int| 0 <= i < s.events.len() ==> #[trigger] s.events[i].eid == event_id((i + 1) as nat)
    &&& s.events.len() > 0 ==> s.events[0].parent_hashes == Seq::<Seq<char>>::empty()
    &&& forall|i: int| 0 < i < s.events.len() ==> #[trigger] s.events[i].parent_hashes == seq![s.events[i - 1].event_hash]
    &&& forall|i: int| 0 <= i < s.events.len() ==> #[trigger] s.events[i].logical_clock == i + 1
    &&& forall|i: int| 0 <= i < s.events.len() ==> #[trigger] s.events[i].timestamp == 1_700_000_000 + i + 1
    &&& s.logical_clock == s.events.len()
    &&& s.events.len() == 0 ==> s.last_event_hash is None
    &&& s.events.len() > 0 ==> s.last_event_hash == Some(s.events.last().event_hash)
}

/// In a chained history the clocks rise from one event to the next.
pub proof fn law_clocks_rise(s: NetworkStateView, i: int, j: int)
    requires
        chained(s),
        0 <= i < j < s.events.len(),
    ensures
        s.events[i].logical_clock < s.events[j].logical_clock,
{
}

/// Recording one more event keeps the history chained, while the clock has
/// room to tick.
pub proof fn lemma_record_keeps_chain(
    s: NetworkStateView,
    entity_id: Seq<char>,
    region_id: Seq<char>,
    operation: Seq<char>,
    v_before: Seq<u128>,
    v_after: Seq<u128>,
    params: Seq<char>,
    auth_ratio: Seq<char>,
    certified: bool,
    actor_pk: Seq<char>,
    proof: Seq<char>,
)
    requires
        chained(s),
        s.logical_clock + 1_700_000_001 <= u64::MAX,
    ensures
        chained(with_event(s, next_event(s, entity_id, region_id, operation, v_before, v_after, params, auth_ratio,
            certified, actor_pk, proof))),
{
    reveal(next_event);
    let e = next_event(s, entity_id, region_id, operation, v_before, v_after, params, auth_ratio, certified,
        actor_pk, proof);
    let t = with_event(s, e);
    assert(e.logical_clock == s.logical_clock + 1);
    assert(t.events.last() == e);
}

} // verus!
verus! {

/// Every operation keeps the history it found as a prefix; a successful
/// one appends exactly the events of its kind (two for a transfer, none
/// for a query or a record lookup, one otherwise) and answers with the
/// first of them, and a refused one appends none.
pub proof fn law_history_grows(s: NetworkStateView, op: KernelOpView)
    ensures
        kernel_step(s, op).0.events.take(s.events.len() as int) == s.events,
        kernel_step(s, op).0.events.len() == s.events.len() + if kernel_step(s, op).1 is Ok {
            events_recorded(op)
        } else {
            0
        },
        events_recorded(op) > 0 ==> (kernel_step(s, op).1 matches Ok(k) ==> k.record == Some(
            kernel_step(s, op).0.events[s.events.len() as int])),
        events_recorded(op) == 0 ==> (kernel_step(s, op).1 matches Ok(k) ==> k.record is None),
{
    let (t, r) = kernel_step(s, op);
    assert(t.events.take(s.events.len() as int) =~= s.events);
    match op {
        KernelOpView::Transfer { source, destination, amount, drain, policy } => {
            if r is Ok {
                assert(t.events[s.events.len() as int] == t.events.drop_last()[s.events.len() as int]);
            }
        },
        _ => {},
    }
}

/// Queries and record lookups change nothing, and answer with their own
/// expression.
pub proof fn law_queries_change_nothing(s: NetworkStateView, op: KernelOpView)
    requires
        op is Query || op is Record,
    ensures
        kernel_step(s, op).0 == s,
        kernel_step(s, op).1 matches Ok(k) && k.record is None,
{
}

/// A refused operation changes nothing.
pub proof fn law_refusal_changes_nothing(s: NetworkStateView, op: KernelOpView)
    requires
        kernel_step(s, op).1 is Err,
    ensures
        kernel_step(s, op).0 == s,
{
}

/// Recording keeps the history chained, whatever the event holds.
proof fn lemma_records_keep_chain()
    ensures
        forall|s: NetworkStateView, a: Seq<char>, b: Seq<char>, c: Seq<char>, d: Seq<u128>, e: Seq<u128>,
            f: Seq<char>, g: Seq<char>, h: bool, k: Seq<char>, l: Seq<char>|
            chained(s) && s.logical_clock + 1_700_000_001 <= u64::MAX ==> #[trigger] chained(
                with_event(s, next_event(s, a, b, c, d, e, f, g, h, k, l))),
{
    assert forall|s: NetworkStateView, a: Seq<char>, b: Seq<char>, c: Seq<char>, d: Seq<u128>, e: Seq<u128>,
        f: Seq<char>, g: Seq<char>, h: bool, k: Seq<char>, l: Seq<char>|
        chained(s) && s.logical_clock + 1_700_000_001 <= u64::MAX implies #[trigger] chained(
            with_event(s, next_event(s, a, b, c, d, e, f, g, h, k, l))) by {
        lemma_record_keeps_chain(s, a, b, c, d, e, f, g, h, k, l);
    }
}

/// Every operation that fits keeps the history chained.
pub proof fn law_chain_kept(s: NetworkStateView, op: KernelOpView)
    requires
        chained(s),
        op_fits(s, op),
    ensures
        chained(kernel_step(s, op).0),
{
    lemma_records_keep_chain();
    reveal(next_event);
}

} // verus!
verus! {

/// The empty state's history is chained.
pub proof fn law_initial_chained()
    ensures
        chained(crate::state::NetworkState::new_view()),
{
}

} // verus!
verus! {

/// Every successful state-changing operation produces a record: the
/// answer carries an event, and that event is the first one appended to
/// the history.
pub proof fn law_success_is_recorded(s: NetworkStateView, op: KernelOpView)
    requires
        !(op is Query || op is Record),
        kernel_step(s, op).1 is Ok,
    ensures
        kernel_step(s, op).0.events.len() > s.events.len(),
        kernel_step(s, op).1->Ok_0.record == Some(kernel_step(s, op).0.events[s.events.len() as int]),
{
    law_history_grows(s, op);
}

} // verus!
