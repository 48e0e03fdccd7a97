//! The kernel: the operations that programs compile to, and their
//! deterministic execution against the network state.
use vstd::prelude::*;
use crate::allocation::{sum, allocation, subtract_spec, add_spec, sat_sub, component_allocation, vector_subtract,
    vector_add_strict};
use crate::ast::{VectorType, vector_type_name, opt_view};
use crate::error::{RuntimeError, RuntimeErrorKind, RuntimeErrorView, RuntimeErrorKindView, plain_error};
use crate::event::{Event, EventView, bool_text, payload_text, fnv_text, signature_of, canonical_event_payload,
    derive_event_hash, derive_signature, derive_timestamp};
use crate::state::{CertificationState, ContractState, ContractStateView, NetworkState, NetworkStateView,
    ProjectionState, ProjectionStateView, VectorState, VectorStateView, WalletState, WalletStateView,
    next_clock_value, with_event};
use crate::strmap::StrMap;
use crate::text::{views, dec, hex_fixed, join, push_str, push_dec, push_hex, owned, copy_string, copy_strings,
    copy_u128s, copy_opt_string};

verus! {

#[derive(Debug, Clone, PartialEq, Eq)]
pub enum KernelOp {
    CreateVector { name: String, vector_type: VectorType, components: Vec<u128> },
    BindWallet { name: String, public_key: String },
    Certify { target: String, context: String, auth_ratio: String, certified: bool },
    Transfer { source: String, destination: String, amount: u128, drain: u128, policy: Option<String> },
    Drain { target: String, amount: u128 },
    Project { source: String, environment: String, amount: u128, policy: Option<String>, projection_id: String },
    Reconstruct { target: String, projection_id: String },
    Query { expr: String },
    Record { expr: String },
    Contract { name: String, actions: Vec<String> },
    ContractAction { contract: String, action: String, args: Vec<String> },
}

/// A kernel operation with its texts as character sequences.
pub enum KernelOpView {
    CreateVector { name: Seq<char>, vector_type: VectorType, components: Seq<u128> },
    BindWallet { name: Seq<char>, public_key: Seq<char> },
    Certify { target: Seq<char>, context: Seq<char>, auth_ratio: Seq<char>, certified: bool },
    Transfer { source: Seq<char>, destination: Seq<char>, amount: u128, drain: u128, policy: Option<Seq<char>> },
    Drain { target: Seq<char>, amount: u128 },
    Project { source: Seq<char>, environment: Seq<char>, amount: u128, policy: Option<Seq<char>>, projection_id: Seq<char> },
    Reconstruct { target: Seq<char>, projection_id: Seq<char> },
    Query { expr: Seq<char> },
    Record { expr: Seq<char> },
    Contract { name: Seq<char>, actions: Seq<Seq<char>> },
    ContractAction { contract: Seq<char>, action: Seq<char>, args: Seq<Seq<char>> },
}

impl View for KernelOp {
    type V = KernelOpView;

    open spec fn view(&self) -> KernelOpView {
        match *self {
            KernelOp::CreateVector { name, vector_type, components } =>
                KernelOpView::CreateVector { name: name@, vector_type, components: components@ },
            KernelOp::BindWallet { name, public_key } => KernelOpView::BindWallet { name: name@, public_key: public_key@ },
            KernelOp::Certify { target, context, auth_ratio, certified } =>
                KernelOpView::Certify { target: target@, context: context@, auth_ratio: auth_ratio@, certified },
            KernelOp::Transfer { source, destination, amount, drain, policy } => KernelOpView::Transfer {
                source: source@,
                destination: destination@,
                amount,
                drain,
                policy: crate::ast::opt_view(policy),
            },
            KernelOp::Drain { target, amount } => KernelOpView::Drain { target: target@, amount },
            KernelOp::Project { source, environment, amount, policy, projection_id } => KernelOpView::Project {
                source: source@,
                environment: environment@,
                amount,
                policy: crate::ast::opt_view(policy),
                projection_id: projection_id@,
            },
            KernelOp::Reconstruct { target, projection_id } =>
                KernelOpView::Reconstruct { target: target@, projection_id: projection_id@ },
            KernelOp::Query { expr } => KernelOpView::Query { expr: expr@ },
            KernelOp::Record { expr } => KernelOpView::Record { expr: expr@ },
            KernelOp::Contract { name, actions } => KernelOpView::Contract { name: name@, actions: views(actions@) },
            KernelOp::ContractAction { contract, action, args } =>
                KernelOpView::ContractAction { contract: contract@, action: action@, args: views(args@) },
        }
    }
}

/// The views of a sequence of operations.
pub open spec fn op_views(ops: Seq<KernelOp>) -> Seq<KernelOpView> {
    ops.map_values(|o: KernelOp| o@)
}

} // verus!
verus! {

broadcast use vstd::string::group_string_axioms;

#[derive(Debug, PartialEq, Eq)]
pub struct KernelResult {
    pub output: Option<String>,
    pub record: Option<Event>,
}

pub struct KernelResultView {
    pub output: Option<Seq<char>>,
    pub record: Option<EventView>,
}

impl View for KernelResult {
    type V = KernelResultView;

    open spec fn view(&self) -> KernelResultView {
        KernelResultView {
            output: opt_view(self.output),
            record: match self.record {
                Some(e) => Some(e@),
                None => None,
            },
        }
    }
}

/// A kernel outcome by its views.
pub open spec fn outcome_view(r: Result<KernelResult, RuntimeError>) -> Result<KernelResultView, RuntimeErrorView> {
    match r {
        Ok(k) => Ok(k@),
        Err(e) => Err(e@),
    }
}

/// Whether a vector of the first type may send to one of the second: a
/// free vector sends to any type, every other type only to its own.
pub open spec fn compatible(source: VectorType, destination: VectorType) -> bool {
    source == VectorType::Free || source == destination
}

/// Whether a vector of the first type may send to one of the second.
pub fn type_compatible_for_transfer(source: VectorType, destination: VectorType) -> (r: bool)
    ensures
        r == compatible(source, destination),
{
    match (source, destination) {
        (VectorType::Free, _) => true,
        (VectorType::Position, VectorType::Position) => true,
        (VectorType::Bound, VectorType::Bound) => true,
        (VectorType::Spatial, VectorType::Spatial) => true,
        (VectorType::Unit, VectorType::Unit) => true,
        (VectorType::Zero, VectorType::Zero) => true,
        _ => false,
    }
}

/// The id of the `n`-th event: `evt_` and `n` in 16 hexadecimal digits.
pub open spec fn event_id(n: nat) -> Seq<char> {
    "evt_"@ + hex_fixed(n, 16)
}

/// The event that the state records next, with the given contents: its id
/// counts the events, its clock is the next tick, its parent is the last
/// event, and it is signed and hashed over its canonical payload (first
/// under a provisional signature, then under the signature of that hash).
#[verifier::opaque]
pub open spec fn next_event(
    s: NetworkStateView,
    entity_id: Seq<char>,
    region_id: Seq<char>,
    operation: Seq<char>,
    v_before: Seq<u128>,
    v_after: Seq<u128>,
    params: Seq<char>,
    auth_ratio: Seq<char>,
    certified: bool,
    actor_pk: Seq<char>,
    proof: Seq<char>,
) -> EventView {
    let eid = event_id((s.events.len() + 1) as nat);
    let clock = next_clock_value(s.logical_clock);
    let timestamp = (1_700_000_000 + clock) as u64;
    let parents = match s.last_event_hash {
        Some(h) => seq![h],
        None => Seq::<Seq<char>>::empty(),
    };
    let provisional = signature_of(eid + ":"@ + actor_pk + ":"@ + dec(clock as nat), actor_pk, clock);
    let first_hash = fnv_text(payload_text(eid, parents, region_id, entity_id, v_before, v_after, operation, params,
        auth_ratio, certified, actor_pk, proof, clock, timestamp, provisional));
    let signature = signature_of(first_hash, actor_pk, clock);
    let event_hash = fnv_text(payload_text(eid, parents, region_id, entity_id, v_before, v_after, operation, params,
        auth_ratio, certified, actor_pk, proof, clock, timestamp, signature));
    EventView {
        eid,
        parent_hashes: parents,
        region_id,
        entity_id,
        v_before,
        v_after,
        operation,
        params,
        auth_ratio,
        certified,
        actor_pk,
        proof,
        logical_clock: clock,
        timestamp,
        signature,
        event_hash,
    }
}

/// Room for `n` more events: the ids and the timestamps stay in range.
pub open spec fn room_for(s: NetworkStateView, n: nat) -> bool {
    &&& s.logical_clock + n + 1_700_000_000 <= u64::MAX
    &&& s.events.len() + n <= usize::MAX
}

/// Builds the next event of the state (advancing its clock) without
/// recording it.
fn canonical_record(
    state: &mut NetworkState,
    entity_id: &str,
    region_id: &str,
    operation: &str,
    v_before: &Vec<u128>,
    v_after: &Vec<u128>,
    params: &str,
    auth_ratio: &str,
    certified: bool,
    actor_pk: &str,
    proof: &str,
) -> (r: Event)
    requires
        room_for(old(state)@, 1),
    ensures
        r@ == next_event(old(state)@, entity_id@, region_id@, operation@, v_before@, v_after@, params@,
            auth_ratio@, certified, actor_pk@, proof@),
        r@.logical_clock == next_clock_value(old(state)@.logical_clock),
        final(state)@ == (NetworkStateView { logical_clock: r@.logical_clock, ..old(state)@ }),
        final(state).wf() == old(state).wf(),
{
    let ghost s = state@;
    let n: usize = state.events.len() + 1;
    let mut eid = owned("evt_");
    push_hex(&mut eid, n as u128, 16);
    let logical_clock = state.next_clock();
    let timestamp = derive_timestamp(logical_clock);
    let parent_hashes: Vec<String> = match &state.last_event_hash {
        Some(h) => vec![copy_string(h)],
        None => Vec::new(),
    };
    let mut seed = copy_string(&eid);
    push_str(&mut seed, ":");
    push_str(&mut seed, actor_pk);
    push_str(&mut seed, ":");
    push_dec(&mut seed, logical_clock as u128);
    let provisional_signature = derive_signature(seed.as_str(), actor_pk, logical_clock);
    let payload = canonical_event_payload(eid.as_str(), parent_hashes.as_slice(), region_id, entity_id,
        v_before.as_slice(), v_after.as_slice(), operation, params, auth_ratio, certified, actor_pk, proof,
        logical_clock, timestamp, provisional_signature.as_str());
    let first_hash = derive_event_hash(payload.as_str());
    let signature = derive_signature(first_hash.as_str(), actor_pk, logical_clock);
    let final_payload = canonical_event_payload(eid.as_str(), parent_hashes.as_slice(), region_id, entity_id,
        v_before.as_slice(), v_after.as_slice(), operation, params, auth_ratio, certified, actor_pk, proof,
        logical_clock, timestamp, signature.as_str());
    let event_hash = derive_event_hash(final_payload.as_str());
    proof {
        reveal(next_event);
        let parents = match s.last_event_hash {
            Some(h) => seq![h],
            None => Seq::<Seq<char>>::empty(),
        };
        assert(views(parent_hashes@) =~= parents);
    }
    Event {
        eid,
        parent_hashes,
        region_id: owned(region_id),
        entity_id: owned(entity_id),
        v_before: copy_u128s(v_before),
        v_after: copy_u128s(v_after),
        operation: owned(operation),
        params: owned(params),
        auth_ratio: owned(auth_ratio),
        certified,
        actor_pk: owned(actor_pk),
        proof: owned(proof),
        logical_clock,
        timestamp,
        signature,
        event_hash,
    }
}

/// Builds the next event of the state and records it.
fn push_state_event(
    state: &mut NetworkState,
    entity_id: &str,
    region_id: &str,
    operation: &str,
    v_before: &Vec<u128>,
    v_after: &Vec<u128>,
    params: &str,
    auth_ratio: &str,
    certified: bool,
    actor_pk: &str,
    proof: &str,
) -> (r: Event)
    requires
        room_for(old(state)@, 1),
    ensures
        r@ == next_event(old(state)@, entity_id@, region_id@, operation@, v_before@, v_after@, params@,
            auth_ratio@, certified, actor_pk@, proof@),
        r@.logical_clock == next_clock_value(old(state)@.logical_clock),
        final(state)@ == with_event(old(state)@, r@),
        final(state).wf() == old(state).wf(),
{
    let event = canonical_record(state, entity_id, region_id, operation, v_before, v_after, params, auth_ratio,
        certified, actor_pk, proof);
    state.push_event(event.clone());
    event
}

} // verus!
verus! {

/// What an operation changes and answers: the next state, and the result
/// or the error.
pub type Step = (NetworkStateView, Result<KernelResultView, RuntimeErrorView>);

/// The answer of an operation that recorded an event.
pub open spec fn answered(s: NetworkStateView, e: EventView, output: Seq<char>) -> Step {
    (with_event(s, e), Ok(KernelResultView { output: Some(output), record: Some(e) }))
}

/// The state unchanged, and an error without a span.
pub open spec fn refused(s: NetworkStateView, k: RuntimeErrorKindView) -> Step {
    (s, Err(plain_error(k)))
}

/// A recorded event of the kernel itself: region `global`, ratio `1.0000`,
/// certified, signed by `kernel`.
pub open spec fn kernel_event(
    s: NetworkStateView,
    entity_id: Seq<char>,
    operation: Seq<char>,
    v_before: Seq<u128>,
    v_after: Seq<u128>,
    params: Seq<char>,
    proof: Seq<char>,
) -> EventView {
    next_event(s, entity_id, "global"@, operation, v_before, v_after, params, "1.0000"@, true, "kernel"@, proof)
}

/// The state with a vector put under its name.
pub open spec fn with_vector(s: NetworkStateView, name: Seq<char>, v: VectorStateView) -> NetworkStateView {
    NetworkStateView { vectors: s.vectors.insert(name, v), ..s }
}

/// The state with the components of a vector replaced.
pub open spec fn with_components(s: NetworkStateView, name: Seq<char>, c: Seq<u128>) -> NetworkStateView {
    with_vector(s, name, VectorStateView { components: c, ..s.vectors[name] })
}

/// Creating a vector: refused when the name is taken; otherwise the vector
/// starts pending, unowned, with ratio `0.0000`, and a `CREATE` event
/// records its components.
pub open spec fn step_create(s: NetworkStateView, name: Seq<char>, ty: VectorType, components: Seq<u128>) -> Step {
    if s.vectors.contains_key(name) {
        refused(s, RuntimeErrorKindView::DuplicateSymbol(name))
    } else {
        let s1 = with_vector(s, name, VectorStateView {
            name,
            vector_type: ty,
            components,
            owner: None,
            meta: Map::empty(),
            certification: CertificationState::Pending,
            auth_ratio: "0.0000"@,
        });
        let e = next_event(s1, name, "global"@, "CREATE"@, Seq::empty(), components, "type="@ + vector_type_name(ty),
            "1.0000"@, true, "kernel"@, "origin-proof"@);
        answered(s1, e, "created "@ + name)
    }
}

/// Binding a wallet: refused when the name is taken; otherwise a `BIND`
/// event, signed with the wallet's own key, records it.
pub open spec fn step_bind(s: NetworkStateView, name: Seq<char>, public_key: Seq<char>) -> Step {
    if s.wallets.contains_key(name) {
        refused(s, RuntimeErrorKindView::DuplicateSymbol(name))
    } else {
        let s1 = NetworkStateView {
            wallets: s.wallets.insert(name, WalletStateView { name, public_key, meta: Map::empty() }),
            ..s
        };
        let e = next_event(s1, name, "global"@, "BIND"@, Seq::empty(), Seq::empty(), "public_key="@ + public_key,
            "1.0000"@, true, public_key, "wallet-binding"@);
        answered(s1, e, "wallet "@ + name + " bound"@)
    }
}

/// Certifying a vector: its ratio and certification state are set, and a
/// `CERTIFY` event carries the context and the ratio.
pub open spec fn step_certify(
    s: NetworkStateView,
    target: Seq<char>,
    context: Seq<char>,
    auth_ratio: Seq<char>,
    certified: bool,
) -> Step {
    if !s.vectors.contains_key(target) {
        refused(s, RuntimeErrorKindView::UnknownSymbol(target))
    } else {
        let v = s.vectors[target];
        let s1 = with_vector(s, target, VectorStateView {
            auth_ratio,
            certification: if certified { CertificationState::Certified } else { CertificationState::Uncertified },
            ..v
        });
        let e = next_event(s1, target, "global"@, "CERTIFY"@, v.components, v.components, context, auth_ratio,
            certified, "kernel"@, "certification-proof"@);
        answered(s1, e, "certify "@ + target + " -> "@ + bool_text(certified))
    }
}

/// The parameters written for a transfer.
pub open spec fn transfer_params(amount: u128, drain: u128, policy: Option<Seq<char>>) -> Seq<char> {
    "amount="@ + dec(amount as nat) + ", drain="@ + dec(drain as nat) + match policy {
        Some(p) => ", policy="@ + p,
        None => Seq::empty(),
    }
}

/// A transfer once its new components are known: both vectors updated,
/// then one event for the source and one for the destination; the answer
/// carries the first.
pub open spec fn transfer_commit(
    s: NetworkStateView,
    source: Seq<char>,
    destination: Seq<char>,
    amount: u128,
    drain: u128,
    policy: Option<Seq<char>>,
    before_source: Seq<u128>,
    after_source: Seq<u128>,
    before_dest: Seq<u128>,
    after_dest: Seq<u128>,
) -> Step {
    let s1 = with_components(s, source, after_source);
    let s2 = with_components(s1, destination, after_dest);
    let params = transfer_params(amount, drain, policy);
    let e1 = kernel_event(s2, source, "TRANSFER"@, before_source, after_source, params, "transfer-proof"@);
    let s3 = with_event(s2, e1);
    let e2 = kernel_event(s3, destination, "TRANSFER_RECEIVE"@, before_dest, after_dest, params, "transfer-proof"@);
    (with_event(s3, e2), Ok(KernelResultView {
        output: Some("transfer "@ + source + "->"@ + destination + " amount="@ + dec(amount as nat) + " drain="@
            + dec(drain as nat)),
        record: Some(e1),
    }))
}

/// Transferring: the amount is taken from the source in proportion to its
/// components, and the amount less the drain is given to the destination
/// in the same proportions.
pub open spec fn step_transfer(
    s: NetworkStateView,
    source: Seq<char>,
    destination: Seq<char>,
    amount: u128,
    drain: u128,
    policy: Option<Seq<char>>,
) -> Step {
    if !s.vectors.contains_key(source) {
        refused(s, RuntimeErrorKindView::UnknownSymbol(source))
    } else if !s.vectors.contains_key(destination) {
        refused(s, RuntimeErrorKindView::UnknownSymbol(destination))
    } else {
        let sv = s.vectors[source];
        let dv = s.vectors[destination];
        if !compatible(sv.vector_type, dv.vector_type) {
            refused(s, RuntimeErrorKindView::TypeMismatch {
                expected: vector_type_name(sv.vector_type),
                found: vector_type_name(dv.vector_type),
            })
        } else if sv.components.len() != dv.components.len() {
            refused(s, RuntimeErrorKindView::InvalidOperation("source and destination dimensions must match"@))
        } else {
            match subtract_spec(sv.components, amount as nat) {
                None => refused(s, RuntimeErrorKindView::InvalidOperation("allocation exceeded source balance"@)),
                Some(after_source) => {
                    let received = allocation(sv.components, sat_sub(amount as nat, drain as nat));
                    match add_spec(dv.components, received) {
                        None => refused(s, RuntimeErrorKindView::InvalidOperation("vector dimensions must match"@)),
                        Some(after_dest) => transfer_commit(s, source, destination, amount, drain, policy,
                            sv.components, after_source, dv.components, after_dest),
                    }
                },
            }
        }
    }
}

} // verus!
verus! {

/// Draining: the amount is taken from the vector in proportion to its
/// components and leaves circulation.
pub open spec fn step_drain(s: NetworkStateView, target: Seq<char>, amount: u128) -> Step {
    if !s.vectors.contains_key(target) {
        refused(s, RuntimeErrorKindView::UnknownSymbol(target))
    } else {
        let before = s.vectors[target].components;
        match subtract_spec(before, amount as nat) {
            None => refused(s, RuntimeErrorKindView::InvalidOperation("allocation exceeded source balance"@)),
            Some(after) => {
                let s1 = with_components(s, target, after);
                let e = kernel_event(s1, target, "DRAIN"@, before, after, "amount="@ + dec(amount as nat),
                    "drain-proof"@);
                answered(s1, e, "drain "@ + target + " amount="@ + dec(amount as nat))
            },
        }
    }
}

/// The parameters written for a projection.
pub open spec fn project_params(
    environment: Seq<char>,
    amount: u128,
    projection_id: Seq<char>,
    policy: Option<Seq<char>>,
) -> Seq<char> {
    "environment="@ + environment + ", amount="@ + dec(amount as nat) + ", projection_id="@ + projection_id
        + ", policy="@ + match policy {
        Some(p) => p,
        None => "none"@,
    }
}

/// Projecting: the amount is taken from the source in proportion to its
/// components and locked in a new projection under the given id.
pub open spec fn step_project(
    s: NetworkStateView,
    source: Seq<char>,
    environment: Seq<char>,
    amount: u128,
    policy: Option<Seq<char>>,
    projection_id: Seq<char>,
) -> Step {
    if !s.vectors.contains_key(source) {
        refused(s, RuntimeErrorKindView::UnknownSymbol(source))
    } else {
        let before = s.vectors[source].components;
        let locked = allocation(before, amount as nat);
        match subtract_spec(before, amount as nat) {
            None => refused(s, RuntimeErrorKindView::InvalidOperation("allocation exceeded source balance"@)),
            Some(remainder) => {
                let s1 = with_components(s, source, remainder);
                let s2 = NetworkStateView {
                    projections: s1.projections.insert(projection_id, ProjectionStateView {
                        projection_id,
                        source,
                        environment,
                        locked,
                        remainder,
                        policy,
                        consumed: false,
                        settlement_result: None,
                    }),
                    ..s1
                };
                let e = kernel_event(s2, source, "PROJECT"@, before, remainder,
                    project_params(environment, amount, projection_id, policy), "project-proof"@);
                answered(s2, e, "project "@ + source + " -> "@ + projection_id)
            },
        }
    }
}

/// The state with a projection marked consumed, settled by full return.
pub open spec fn with_consumed(s: NetworkStateView, projection_id: Seq<char>) -> NetworkStateView {
    NetworkStateView {
        projections: s.projections.insert(projection_id, ProjectionStateView {
            consumed: true,
            settlement_result: Some("full_return"@),
            ..s.projections[projection_id]
        }),
        ..s
    }
}

/// Reconstructing: once the projection is found live and the target found
/// with the projection's dimension, the projection is consumed and what it
/// locked is added back to the target. A refusal changes nothing.
pub open spec fn step_reconstruct(s: NetworkStateView, target: Seq<char>, projection_id: Seq<char>) -> Step {
    if !s.projections.contains_key(projection_id) {
        refused(s, RuntimeErrorKindView::ProjectionMissing(projection_id))
    } else if s.projections[projection_id].consumed {
        refused(s, RuntimeErrorKindView::ProjectionConsumed(projection_id))
    } else {
        let locked = s.projections[projection_id].locked;
        if !s.vectors.contains_key(target) {
            refused(s, RuntimeErrorKindView::UnknownSymbol(target))
        } else {
            let before = s.vectors[target].components;
            match add_spec(before, locked) {
                None => refused(s, RuntimeErrorKindView::InvalidOperation("vector dimensions must match"@)),
                Some(after) => {
                    let s2 = with_components(with_consumed(s, projection_id), target, after);
                    let e = kernel_event(s2, target, "RECONSTRUCT"@, before, after,
                        "projection_id="@ + projection_id, "reconstruct-proof"@);
                    answered(s2, e, "reconstruct "@ + target + " from "@ + projection_id)
                },
            }
        }
    }
}

/// Deploying a contract: refused when the name is taken; otherwise a
/// `CONTRACT` event lists its actions.
pub open spec fn step_contract(s: NetworkStateView, name: Seq<char>, actions: Seq<Seq<char>>) -> Step {
    if s.contracts.contains_key(name) {
        refused(s, RuntimeErrorKindView::DuplicateSymbol(name))
    } else {
        let s1 = NetworkStateView {
            contracts: s.contracts.insert(name, ContractStateView { name, actions }),
            ..s
        };
        let e = kernel_event(s1, name, "CONTRACT"@, Seq::empty(), Seq::empty(), "actions="@ + join(actions, "; "@),
            "contract-proof"@);
        answered(s1, e, "contract "@ + name + " deployed"@)
    }
}

/// Invoking a contract action: a `CONTRACT_ACTION` event records it under
/// the contract's name.
pub open spec fn step_contract_action(
    s: NetworkStateView,
    contract: Seq<char>,
    action: Seq<char>,
    args: Seq<Seq<char>>,
) -> Step {
    if !s.contracts.contains_key(contract) {
        refused(s, RuntimeErrorKindView::ContractMissing(contract))
    } else {
        let name = s.contracts[contract].name;
        let e = kernel_event(s, name, "CONTRACT_ACTION"@, Seq::empty(), Seq::empty(),
            "action="@ + action + ", args="@ + join(args, ", "@), "contract-action-proof"@);
        answered(s, e, "contract action "@ + name + "::"@ + action)
    }
}

/// What executing an operation does to the state, and what it answers.
pub open spec fn kernel_step(s: NetworkStateView, op: KernelOpView) -> Step {
    match op {
        KernelOpView::CreateVector { name, vector_type, components } => step_create(s, name, vector_type, components),
        KernelOpView::BindWallet { name, public_key } => step_bind(s, name, public_key),
        KernelOpView::Certify { target, context, auth_ratio, certified } =>
            step_certify(s, target, context, auth_ratio, certified),
        KernelOpView::Transfer { source, destination, amount, drain, policy } =>
            step_transfer(s, source, destination, amount, drain, policy),
        KernelOpView::Drain { target, amount } => step_drain(s, target, amount),
        KernelOpView::Project { source, environment, amount, policy, projection_id } =>
            step_project(s, source, environment, amount, policy, projection_id),
        KernelOpView::Reconstruct { target, projection_id } => step_reconstruct(s, target, projection_id),
        KernelOpView::Query { expr } => (s, Ok(KernelResultView { output: Some(expr), record: None })),
        KernelOpView::Record { expr } => (s, Ok(KernelResultView { output: Some(expr), record: None })),
        KernelOpView::Contract { name, actions } => step_contract(s, name, actions),
        KernelOpView::ContractAction { contract, action, args } => step_contract_action(s, contract, action, args),
    }
}

/// The number of events that an operation records when it succeeds.
pub open spec fn events_recorded(op: KernelOpView) -> nat {
    match op {
        KernelOpView::Transfer { .. } => 2,
        KernelOpView::Query { .. } => 0,
        KernelOpView::Record { .. } => 0,
        _ => 1,
    }
}

/// Whether the source of a split has components whose sum fits in a
/// `u128` (summing them would overflow otherwise).
pub open spec fn summable(s: NetworkStateView, name: Seq<char>) -> bool {
    s.vectors.contains_key(name) ==> sum(s.vectors[name].components) <= u128::MAX
}

/// Every sum that the operation takes fits: the source of a split has
/// components whose sum fits in a `u128` where the operation reaches the
/// split.
pub open spec fn splits_fit(s: NetworkStateView, op: KernelOpView) -> bool {
    match op {
        KernelOpView::Transfer { source, destination, .. } => transfer_summable(s, source, destination),
        KernelOpView::Drain { target, .. } => summable(s, target),
        KernelOpView::Project { source, .. } => summable(s, source),
        _ => true,
    }
}

/// The operation can run on the state without overflow: room for the
/// events it records if it succeeds, and sums that fit.
pub open spec fn op_fits(s: NetworkStateView, op: KernelOpView) -> bool {
    &&& kernel_step(s, op).1 is Ok ==> room_for(s, events_recorded(op))
    &&& splits_fit(s, op)
}

} // verus!
verus! {

/// A copy of the vector under `name`, if there is one.
fn vector_of(state: &NetworkState, name: &str) -> (r: Option<VectorState>)
    requires
        state.wf(),
    ensures
        match r {
            Some(v) => state@.vectors.contains_key(name@) && v@ == state@.vectors[name@],
            None => !state@.vectors.contains_key(name@),
        },
{
    match state.vectors.get(name) {
        Some(v) => Some(v.clone()),
        None => None,
    }
}

/// Puts a vector under `name`.
fn set_vector(state: &mut NetworkState, name: &str, v: VectorState)
    requires
        old(state).wf(),
    ensures
        final(state).wf(),
        final(state)@ == with_vector(old(state)@, name@, v@),
{
    let ghost before = state.vectors;
    let ghost gv = v;
    state.vectors.insert(owned(name), v);
    proof {
        state.vectors.lemma_view_insert(before, name@, gv);
    }
    assert(state@.vectors == old(state)@.vectors.insert(name@, gv@));
}

/// Replaces the components of the vector under `name`.
fn set_components(state: &mut NetworkState, name: &str, c: &Vec<u128>)
    requires
        old(state).wf(),
        old(state)@.vectors.contains_key(name@),
    ensures
        final(state).wf(),
        final(state)@ == with_components(old(state)@, name@, c@),
{
    match vector_of(state, name) {
        Some(v) => {
            let mut v = v;
            v.components = copy_u128s(c);
            set_vector(state, name, v);
        },
        None => {},
    }
}

/// A copy of the projection under `id`, if there is one.
fn projection_of(state: &NetworkState, id: &str) -> (r: Option<ProjectionState>)
    requires
        state.wf(),
    ensures
        match r {
            Some(p) => state@.projections.contains_key(id@) && p@ == state@.projections[id@],
            None => !state@.projections.contains_key(id@),
        },
{
    match state.projections.get(id) {
        Some(p) => Some(p.clone()),
        None => None,
    }
}

/// Puts a projection under `id`.
fn set_projection(state: &mut NetworkState, id: &str, p: ProjectionState)
    requires
        old(state).wf(),
    ensures
        final(state).wf(),
        final(state)@ == (NetworkStateView { projections: old(state)@.projections.insert(id@, p@), ..old(state)@ }),
{
    let ghost before = state.projections;
    let ghost gp = p;
    state.projections.insert(owned(id), p);
    proof {
        state.projections.lemma_view_insert(before, id@, gp);
    }
}

/// Executes a vector creation.
fn exec_create(state: &mut NetworkState, name: String, vector_type: VectorType, components: Vec<u128>)
    -> (r: Result<KernelResult, RuntimeError>)
    requires
        old(state).wf(),
        step_create(old(state)@, name@, vector_type, components@).1 is Ok ==> room_for(old(state)@, 1),
    ensures
        final(state).wf(),
        final(state)@ == step_create(old(state)@, name@, vector_type, components@).0,
        outcome_view(r) == step_create(old(state)@, name@, vector_type, components@).1,
{
    if state.vectors.contains_key(name.as_str()) {
        return Err(RuntimeError::new(RuntimeErrorKind::DuplicateSymbol(name)));
    }
    let vector = VectorState {
        name: copy_string(&name),
        vector_type,
        components: copy_u128s(&components),
        owner: None,
        meta: StrMap::new(),
        certification: CertificationState::Pending,
        auth_ratio: owned("0.0000"),
    };
    assert(vector@.meta =~= Map::<Seq<char>, Seq<char>>::empty());
    set_vector(state, name.as_str(), vector);
    let mut params = owned("type=");
    push_str(&mut params, vector_type.as_str());
    let none: Vec<u128> = Vec::new();
    let event = push_state_event(state, name.as_str(), "global", "CREATE", &none, &components, params.as_str(),
        "1.0000", true, "kernel", "origin-proof");
    let mut out = owned("created ");
    push_str(&mut out, name.as_str());
    Ok(KernelResult { output: Some(out), record: Some(event) })
}

/// Executes a wallet binding.
fn exec_bind(state: &mut NetworkState, name: String, public_key: String) -> (r: Result<KernelResult, RuntimeError>)
    requires
        old(state).wf(),
        step_bind(old(state)@, name@, public_key@).1 is Ok ==> room_for(old(state)@, 1),
    ensures
        final(state).wf(),
        final(state)@ == step_bind(old(state)@, name@, public_key@).0,
        outcome_view(r) == step_bind(old(state)@, name@, public_key@).1,
{
    if state.wallets.contains_key(name.as_str()) {
        return Err(RuntimeError::new(RuntimeErrorKind::DuplicateSymbol(name)));
    }
    let wallet = WalletState { name: copy_string(&name), public_key: copy_string(&public_key), meta: StrMap::new() };
    assert(wallet@.meta =~= Map::<Seq<char>, Seq<char>>::empty());
    let ghost before = state.wallets;
    let ghost gw = wallet;
    state.wallets.insert(copy_string(&name), wallet);
    proof {
        state.wallets.lemma_view_insert(before, name@, gw);
    }
    let mut params = owned("public_key=");
    push_str(&mut params, public_key.as_str());
    let none: Vec<u128> = Vec::new();
    let event = push_state_event(state, name.as_str(), "global", "BIND", &none, &none, params.as_str(), "1.0000",
        true, public_key.as_str(), "wallet-binding");
    let mut out = owned("wallet ");
    push_str(&mut out, name.as_str());
    push_str(&mut out, " bound");
    Ok(KernelResult { output: Some(out), record: Some(event) })
}

/// Executes a certification.
fn exec_certify(state: &mut NetworkState, target: String, context: String, auth_ratio: String, certified: bool)
    -> (r: Result<KernelResult, RuntimeError>)
    requires
        old(state).wf(),
        step_certify(old(state)@, target@, context@, auth_ratio@, certified).1 is Ok ==> room_for(old(state)@, 1),
    ensures
        final(state).wf(),
        final(state)@ == step_certify(old(state)@, target@, context@, auth_ratio@, certified).0,
        outcome_view(r) == step_certify(old(state)@, target@, context@, auth_ratio@, certified).1,
{
    let mut vector = match vector_of(state, target.as_str()) {
        Some(v) => v,
        None => {
            return Err(RuntimeError::new(RuntimeErrorKind::UnknownSymbol(target)));
        },
    };
    let before = copy_u128s(&vector.components);
    vector.auth_ratio = copy_string(&auth_ratio);
    vector.certification = if certified { CertificationState::Certified } else { CertificationState::Uncertified };
    set_vector(state, target.as_str(), vector);
    let event = push_state_event(state, target.as_str(), "global", "CERTIFY", &before, &before, context.as_str(),
        auth_ratio.as_str(), certified, "kernel", "certification-proof");
    let mut out = owned("certify ");
    push_str(&mut out, target.as_str());
    push_str(&mut out, " -> ");
    push_str(&mut out, if certified { "true" } else { "false" });
    Ok(KernelResult { output: Some(out), record: Some(event) })
}

/// Executes a contract deployment.
fn exec_contract(state: &mut NetworkState, name: String, actions: Vec<String>) -> (r: Result<KernelResult, RuntimeError>)
    requires
        old(state).wf(),
        step_contract(old(state)@, name@, views(actions@)).1 is Ok ==> room_for(old(state)@, 1),
    ensures
        final(state).wf(),
        final(state)@ == step_contract(old(state)@, name@, views(actions@)).0,
        outcome_view(r) == step_contract(old(state)@, name@, views(actions@)).1,
{
    if state.contracts.contains_key(name.as_str()) {
        return Err(RuntimeError::new(RuntimeErrorKind::DuplicateSymbol(name)));
    }
    let contract = ContractState { name: copy_string(&name), actions: copy_strings(&actions) };
    let ghost before = state.contracts;
    let ghost gc = contract;
    state.contracts.insert(copy_string(&name), contract);
    proof {
        state.contracts.lemma_view_insert(before, name@, gc);
    }
    let mut params = owned("actions=");
    crate::text::push_join(&mut params, &actions, "; ");
    let none: Vec<u128> = Vec::new();
    let event = push_state_event(state, name.as_str(), "global", "CONTRACT", &none, &none, params.as_str(),
        "1.0000", true, "kernel", "contract-proof");
    let mut out = owned("contract ");
    push_str(&mut out, name.as_str());
    push_str(&mut out, " deployed");
    Ok(KernelResult { output: Some(out), record: Some(event) })
}

/// Executes a contract action.
fn exec_contract_action(state: &mut NetworkState, contract: String, action: String, args: Vec<String>)
    -> (r: Result<KernelResult, RuntimeError>)
    requires
        old(state).wf(),
        step_contract_action(old(state)@, contract@, action@, views(args@)).1 is Ok ==> room_for(
            old(state)@, 1),
    ensures
        final(state).wf(),
        final(state)@ == step_contract_action(old(state)@, contract@, action@, views(args@)).0,
        outcome_view(r) == step_contract_action(old(state)@, contract@, action@, views(args@)).1,
{
    let contract_name = match state.contracts.get(contract.as_str()) {
        Some(c) => copy_string(&c.name),
        None => {
            return Err(RuntimeError::new(RuntimeErrorKind::ContractMissing(contract)));
        },
    };
    let mut params = owned("action=");
    push_str(&mut params, action.as_str());
    push_str(&mut params, ", args=");
    crate::text::push_join(&mut params, &args, ", ");
    let none: Vec<u128> = Vec::new();
    let event = push_state_event(state, contract_name.as_str(), "global", "CONTRACT_ACTION", &none, &none,
        params.as_str(), "1.0000", true, "kernel", "contract-action-proof");
    let mut out = owned("contract action ");
    push_str(&mut out, contract_name.as_str());
    push_str(&mut out, "::");
    push_str(&mut out, action.as_str());
    Ok(KernelResult { output: Some(out), record: Some(event) })
}

} // verus!
verus! {

/// Executes a drain.
fn exec_drain(state: &mut NetworkState, target: String, amount: u128) -> (r: Result<KernelResult, RuntimeError>)
    requires
        old(state).wf(),
        step_drain(old(state)@, target@, amount).1 is Ok ==> room_for(old(state)@, 1),
        summable(old(state)@, target@),
    ensures
        final(state).wf(),
        final(state)@ == step_drain(old(state)@, target@, amount).0,
        outcome_view(r) == step_drain(old(state)@, target@, amount).1,
{
    let mut vector = match vector_of(state, target.as_str()) {
        Some(v) => v,
        None => {
            return Err(RuntimeError::new(RuntimeErrorKind::UnknownSymbol(target)));
        },
    };
    let before = copy_u128s(&vector.components);
    let after = match vector_subtract(&before, amount) {
        Ok(a) => a,
        Err(e) => {
            return Err(e);
        },
    };
    vector.components = copy_u128s(&after);
    set_vector(state, target.as_str(), vector);
    let mut params = owned("amount=");
    push_dec(&mut params, amount);
    let event = push_state_event(state, target.as_str(), "global", "DRAIN", &before, &after, params.as_str(),
        "1.0000", true, "kernel", "drain-proof");
    let mut out = owned("drain ");
    push_str(&mut out, target.as_str());
    push_str(&mut out, " amount=");
    push_dec(&mut out, amount);
    Ok(KernelResult { output: Some(out), record: Some(event) })
}

/// Executes a projection.
fn exec_project(
    state: &mut NetworkState,
    source: String,
    environment: String,
    amount: u128,
    policy: Option<String>,
    projection_id: String,
) -> (r: Result<KernelResult, RuntimeError>)
    requires
        old(state).wf(),
        step_project(old(state)@, source@, environment@, amount, opt_view(policy), projection_id@).1 is Ok
            ==> room_for(old(state)@, 1),
        summable(old(state)@, source@),
    ensures
        final(state).wf(),
        final(state)@ == step_project(old(state)@, source@, environment@, amount, opt_view(policy), projection_id@).0,
        outcome_view(r) == step_project(old(state)@, source@, environment@, amount, opt_view(policy),
            projection_id@).1,
{
    let mut vector = match vector_of(state, source.as_str()) {
        Some(v) => v,
        None => {
            return Err(RuntimeError::new(RuntimeErrorKind::UnknownSymbol(source)));
        },
    };
    let before = copy_u128s(&vector.components);
    let locked = component_allocation(&before, amount);
    let remainder = match vector_subtract(&before, amount) {
        Ok(a) => a,
        Err(e) => {
            return Err(e);
        },
    };
    vector.components = copy_u128s(&remainder);
    set_vector(state, source.as_str(), vector);
    let projection = ProjectionState {
        projection_id: copy_string(&projection_id),
        source: copy_string(&source),
        environment: copy_string(&environment),
        locked,
        remainder: copy_u128s(&remainder),
        policy: copy_opt_string(&policy),
        consumed: false,
        settlement_result: None,
    };
    set_projection(state, projection_id.as_str(), projection);
    let mut params = owned("environment=");
    push_str(&mut params, environment.as_str());
    push_str(&mut params, ", amount=");
    push_dec(&mut params, amount);
    push_str(&mut params, ", projection_id=");
    push_str(&mut params, projection_id.as_str());
    push_str(&mut params, ", policy=");
    match &policy {
        Some(p) => push_str(&mut params, p.as_str()),
        None => push_str(&mut params, "none"),
    }
    let event = push_state_event(state, source.as_str(), "global", "PROJECT", &before, &remainder, params.as_str(),
        "1.0000", true, "kernel", "project-proof");
    let mut out = owned("project ");
    push_str(&mut out, source.as_str());
    push_str(&mut out, " -> ");
    push_str(&mut out, projection_id.as_str());
    Ok(KernelResult { output: Some(out), record: Some(event) })
}

/// Executes a reconstruction.
fn exec_reconstruct(state: &mut NetworkState, target: String, projection_id: String)
    -> (r: Result<KernelResult, RuntimeError>)
    requires
        old(state).wf(),
        step_reconstruct(old(state)@, target@, projection_id@).1 is Ok ==> room_for(old(state)@, 1),
    ensures
        final(state).wf(),
        final(state)@ == step_reconstruct(old(state)@, target@, projection_id@).0,
        outcome_view(r) == step_reconstruct(old(state)@, target@, projection_id@).1,
{
    let mut projection = match projection_of(state, projection_id.as_str()) {
        Some(p) => p,
        None => {
            return Err(RuntimeError::new(RuntimeErrorKind::ProjectionMissing(projection_id)));
        },
    };
    if projection.consumed {
        return Err(RuntimeError::new(RuntimeErrorKind::ProjectionConsumed(projection_id)));
    }
    let locked = copy_u128s(&projection.locked);
    let mut vector = match vector_of(state, target.as_str()) {
        Some(v) => v,
        None => {
            return Err(RuntimeError::new(RuntimeErrorKind::UnknownSymbol(target)));
        },
    };
    let before = copy_u128s(&vector.components);
    let after = match vector_add_strict(&before, &locked) {
        Ok(a) => a,
        Err(e) => {
            return Err(e);
        },
    };
    projection.consumed = true;
    projection.settlement_result = Some(owned("full_return"));
    set_projection(state, projection_id.as_str(), projection);
    vector.components = copy_u128s(&after);
    set_vector(state, target.as_str(), vector);
    let mut params = owned("projection_id=");
    push_str(&mut params, projection_id.as_str());
    let event = push_state_event(state, target.as_str(), "global", "RECONSTRUCT", &before, &after, params.as_str(),
        "1.0000", true, "kernel", "reconstruct-proof");
    let mut out = owned("reconstruct ");
    push_str(&mut out, target.as_str());
    push_str(&mut out, " from ");
    push_str(&mut out, projection_id.as_str());
    Ok(KernelResult { output: Some(out), record: Some(event) })
}

} // verus!
verus! {

/// A transfer splits its amount only once both vectors exist, are
/// compatible and have the same dimension; the source's sum must then fit.
pub open spec fn transfer_summable(s: NetworkStateView, source: Seq<char>, destination: Seq<char>) -> bool {
    (s.vectors.contains_key(source) && s.vectors.contains_key(destination)
        && compatible(s.vectors[source].vector_type, s.vectors[destination].vector_type)
        && s.vectors[source].components.len() == s.vectors[destination].components.len())
        ==> sum(s.vectors[source].components) <= u128::MAX
}

/// Executes a transfer.
fn exec_transfer(
    state: &mut NetworkState,
    source: String,
    destination: String,
    amount: u128,
    drain: u128,
    policy: Option<String>,
) -> (r: Result<KernelResult, RuntimeError>)
    requires
        old(state).wf(),
        step_transfer(old(state)@, source@, destination@, amount, drain, opt_view(policy)).1 is Ok ==> room_for(
            old(state)@, 2),
        transfer_summable(old(state)@, source@, destination@),
    ensures
        final(state).wf(),
        final(state)@ == step_transfer(old(state)@, source@, destination@, amount, drain, opt_view(policy)).0,
        outcome_view(r) == step_transfer(old(state)@, source@, destination@, amount, drain, opt_view(policy)).1,
{
    let source_vec = match vector_of(state, source.as_str()) {
        Some(v) => v,
        None => {
            return Err(RuntimeError::new(RuntimeErrorKind::UnknownSymbol(source)));
        },
    };
    let dest_vec = match vector_of(state, destination.as_str()) {
        Some(v) => v,
        None => {
            return Err(RuntimeError::new(RuntimeErrorKind::UnknownSymbol(destination)));
        },
    };
    let source_type = source_vec.vector_type;
    let dest_type = dest_vec.vector_type;
    if !type_compatible_for_transfer(source_type, dest_type) {
        return Err(RuntimeError::new(RuntimeErrorKind::TypeMismatch {
            expected: owned(source_type.as_str()),
            found: owned(dest_type.as_str()),
        }));
    }
    let before_source = copy_u128s(&source_vec.components);
    let before_dest = copy_u128s(&dest_vec.components);
    if before_source.len() != before_dest.len() {
        return Err(RuntimeError::new(RuntimeErrorKind::InvalidOperation(
            owned("source and destination dimensions must match"))));
    }
    let after_source = match vector_subtract(&before_source, amount) {
        Ok(a) => a,
        Err(e) => {
            return Err(e);
        },
    };
    let received_amount = amount.saturating_sub(drain);
    let received = component_allocation(&before_source, received_amount);
    let after_dest = match vector_add_strict(&before_dest, &received) {
        Ok(a) => a,
        Err(e) => {
            return Err(e);
        },
    };
    commit_transfer(state, &source, &destination, amount, drain, &policy, &before_source, &after_source,
        &before_dest, &after_dest)
}

/// The parameters written for a transfer.
fn transfer_params_text(amount: u128, drain: u128, policy: &Option<String>) -> (r: String)
    ensures
        r@ == transfer_params(amount, drain, opt_view(*policy)),
{
    let mut params = owned("amount=");
    push_dec(&mut params, amount);
    push_str(&mut params, ", drain=");
    push_dec(&mut params, drain);
    match policy {
        Some(p) => {
            push_str(&mut params, ", policy=");
            push_str(&mut params, p.as_str());
        },
        None => {},
    }
    assert(params@ == transfer_params(amount, drain, opt_view(*policy)));
    params
}

/// Writes the new components of both vectors and records the two events.
fn commit_transfer(
    state: &mut NetworkState,
    source: &String,
    destination: &String,
    amount: u128,
    drain: u128,
    policy: &Option<String>,
    before_source: &Vec<u128>,
    after_source: &Vec<u128>,
    before_dest: &Vec<u128>,
    after_dest: &Vec<u128>,
) -> (r: Result<KernelResult, RuntimeError>)
    requires
        old(state).wf(),
        room_for(old(state)@, 2),
        old(state)@.vectors.contains_key(source@),
        old(state)@.vectors.contains_key(destination@),
    ensures
        final(state).wf(),
        r is Ok,
        final(state)@ == transfer_commit(old(state)@, source@, destination@, amount, drain, opt_view(*policy),
            before_source@, after_source@, before_dest@, after_dest@).0,
        outcome_view(r) == transfer_commit(old(state)@, source@, destination@, amount, drain, opt_view(*policy),
            before_source@, after_source@, before_dest@, after_dest@).1,
{
    set_components(state, source.as_str(), after_source);
    set_components(state, destination.as_str(), after_dest);
    let params = transfer_params_text(amount, drain, policy);
    let event = push_state_event(state, source.as_str(), "global", "TRANSFER", before_source, after_source,
        params.as_str(), "1.0000", true, "kernel", "transfer-proof");
    let _dest_event = push_state_event(state, destination.as_str(), "global", "TRANSFER_RECEIVE", before_dest,
        after_dest, params.as_str(), "1.0000", true, "kernel", "transfer-proof");
    let mut out = owned("transfer ");
    push_str(&mut out, source.as_str());
    push_str(&mut out, "->");
    push_str(&mut out, destination.as_str());
    push_str(&mut out, " amount=");
    push_dec(&mut out, amount);
    push_str(&mut out, " drain=");
    push_dec(&mut out, drain);
    Ok(KernelResult { output: Some(out), record: Some(event) })
}

} // verus!
verus! {

/// Executes one operation against the state: changes it as `kernel_step`
/// says and answers what it says.
pub fn execute_kernel_op(state: &mut NetworkState, op: KernelOp) -> (r: Result<KernelResult, RuntimeError>)
    requires
        old(state).wf(),
        op_fits(old(state)@, op@),
    ensures
        final(state).wf(),
        final(state)@ == kernel_step(old(state)@, op@).0,
        outcome_view(r) == kernel_step(old(state)@, op@).1,
{
    match op {
        KernelOp::CreateVector { name, vector_type, components } => exec_create(state, name, vector_type, components),
        KernelOp::BindWallet { name, public_key } => exec_bind(state, name, public_key),
        KernelOp::Certify { target, context, auth_ratio, certified } =>
            exec_certify(state, target, context, auth_ratio, certified),
        KernelOp::Transfer { source, destination, amount, drain, policy } =>
            exec_transfer(state, source, destination, amount, drain, policy),
        KernelOp::Drain { target, amount } => exec_drain(state, target, amount),
        KernelOp::Project { source, environment, amount, policy, projection_id } =>
            exec_project(state, source, environment, amount, policy, projection_id),
        KernelOp::Reconstruct { target, projection_id } => exec_reconstruct(state, target, projection_id),
        KernelOp::Query { expr } => Ok(KernelResult { output: Some(expr), record: None }),
        KernelOp::Record { expr } => Ok(KernelResult { output: Some(expr), record: None }),
        KernelOp::Contract { name, actions } => exec_contract(state, name, actions),
        KernelOp::ContractAction { contract, action, args } => exec_contract_action(state, contract, action, args),
    }
}

} // verus!
verus! {

/// A transfer between two different, compatible vectors of one dimension,
/// the source holding a positive total, no product `amount * c_i`
/// saturating and the destination's total staying in range: it goes
/// through exactly when `amount` is at most the source's total. The source
/// then loses exactly `amount` and the destination gains exactly `amount`
/// less `drain` (the drained part leaves circulation). Otherwise it is
/// refused as exceeding the balance, and nothing changes.
pub proof fn law_transfer_conservation(
    s: NetworkStateView,
    source: Seq<char>,
    destination: Seq<char>,
    amount: u128,
    drain: u128,
    policy: Option<Seq<char>>,
)
    requires
        source != destination,
        s.vectors.contains_key(source),
        s.vectors.contains_key(destination),
        compatible(s.vectors[source].vector_type, s.vectors[destination].vector_type),
        s.vectors[source].components.len() == s.vectors[destination].components.len(),
        sum(s.vectors[source].components) > 0,
        crate::allocation::products_fit(s.vectors[source].components, amount as nat),
        sum(s.vectors[destination].components) + amount <= u128::MAX,
    ensures
        (step_transfer(s, source, destination, amount, drain, policy).1 is Ok) == (amount <= sum(
            s.vectors[source].components)),
        amount <= sum(s.vectors[source].components) ==> {
            let t = step_transfer(s, source, destination, amount, drain, policy).0;
            &&& sum(t.vectors[source].components) + amount == sum(s.vectors[source].components)
            &&& sum(t.vectors[destination].components) == sum(s.vectors[destination].components) + sat_sub(
                amount as nat, drain as nat)
        },
        amount > sum(s.vectors[source].components) ==> step_transfer(s, source, destination, amount, drain, policy)
            == refused(s, RuntimeErrorKindView::InvalidOperation("allocation exceeded source balance"@)),
{
    let src = s.vectors[source].components;
    let dst = s.vectors[destination].components;
    let total = sum(src);
    crate::allocation::law_subtract(src, amount as nat);
    if amount <= total {
        let r = sat_sub(amount as nat, drain as nat);
        assert forall|i: int| 0 <= i < src.len() implies r * #[trigger] src[i] <= u128::MAX by {
            let ci = src[i] as nat;
            assert(amount * ci <= u128::MAX);
            assert(r * ci <= amount * ci) by (nonlinear_arith)
                requires r <= amount;
        }
        crate::allocation::law_allocation_total(src, r);
        let received = allocation(src, r);
        assert forall|i: int| 0 <= i < dst.len() implies dst[i] + received[i] <= u128::MAX by {
            crate::allocation::lemma_component_le_sum(dst, i);
            crate::allocation::lemma_component_le_sum(received, i);
        }
        crate::allocation::law_add(dst, received);
    }
}

} // verus!
verus! {

/// Reconstructing a vector from the projection just taken out of it gives
/// it back its components: the projection locks exactly what it removed.
pub proof fn law_project_reconstruct_round_trip(
    s: NetworkStateView,
    source: Seq<char>,
    environment: Seq<char>,
    amount: u128,
    policy: Option<Seq<char>>,
    projection_id: Seq<char>,
)
    requires
        step_project(s, source, environment, amount, policy, projection_id).1 is Ok,
    ensures
        ({
            let t = step_project(s, source, environment, amount, policy, projection_id).0;
            &&& step_reconstruct(t, source, projection_id).1 is Ok
            &&& step_reconstruct(t, source, projection_id).0.vectors[source].components
                == s.vectors[source].components
        }),
{
    let c = s.vectors[source].components;
    let locked = allocation(c, amount as nat);
    let remainder = subtract_spec(c, amount as nat)->Some_0;
    assert(add_spec(remainder, locked) == Some(c)) by {
        assert(Seq::new(remainder.len(), |i: int| crate::allocation::sat_add(remainder[i] as nat, locked[i] as nat) as u128) =~= c);
    }
}

} // verus!
verus! {

/// Whether the operation succeeds on the state, decided without running it.
pub(crate) fn step_succeeds(state: &NetworkState, op: &KernelOp) -> (r: bool)
    requires
        state.wf(),
        splits_fit(state@, op@),
    ensures
        r == (kernel_step(state@, op@).1 is Ok),
{
    match op {
        KernelOp::CreateVector { name, .. } => !state.vectors.contains_key(name.as_str()),
        KernelOp::BindWallet { name, .. } => !state.wallets.contains_key(name.as_str()),
        KernelOp::Certify { target, .. } => state.vectors.contains_key(target.as_str()),
        KernelOp::Transfer { source, destination, amount, .. } => {
            match vector_of(state, source.as_str()) {
                Some(sv) => match vector_of(state, destination.as_str()) {
                    Some(dv) => {
                        type_compatible_for_transfer(sv.vector_type, dv.vector_type)
                            && sv.components.len() == dv.components.len()
                            && vector_subtract(&sv.components, *amount).is_ok()
                    },
                    None => false,
                },
                None => false,
            }
        },
        KernelOp::Drain { target, amount } => match vector_of(state, target.as_str()) {
            Some(v) => vector_subtract(&v.components, *amount).is_ok(),
            None => false,
        },
        KernelOp::Project { source, amount, .. } => match vector_of(state, source.as_str()) {
            Some(v) => vector_subtract(&v.components, *amount).is_ok(),
            None => false,
        },
        KernelOp::Reconstruct { target, projection_id } => match projection_of(state, projection_id.as_str()) {
            Some(p) => {
                if p.consumed {
                    false
                } else {
                    match vector_of(state, target.as_str()) {
                        Some(v) => v.components.len() == p.locked.len(),
                        None => false,
                    }
                }
            },
            None => false,
        },
        KernelOp::Query { .. } => true,
        KernelOp::Record { .. } => true,
        KernelOp::Contract { name, .. } => !state.contracts.contains_key(name.as_str()),
        KernelOp::ContractAction { contract, .. } => state.contracts.contains_key(contract.as_str()),
    }
}

} // verus!
verus! {

impl Clone for KernelResult {
    /// A copy with the same view.
    fn clone(&self) -> (r: Self)
        ensures
            r@ == self@,
    {
        KernelResult {
            output: copy_opt_string(&self.output),
            record: match &self.record {
                Some(e) => Some(e.clone()),
                None => None,
            },
        }
    }
}

} // verus!
