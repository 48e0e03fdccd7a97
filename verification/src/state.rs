//! The live network state: vectors, wallets, projections and contracts by
//! name, the event history, the logical clock and the hash of the last event.
use vstd::prelude::*;
use crate::allocation::sum;
use crate::ast::VectorType;
use crate::event::{Event, EventView};
use crate::strmap::StrMap;
use crate::text::{copy_string, copy_opt_string, copy_strings, copy_u128s, owned, views};

verus! {

broadcast use vstd::string::group_string_axioms;

#[derive(Debug, Clone, Copy, PartialEq, Eq, Structural)]
pub enum CertificationState {
    Certified,
    Uncertified,
    Suspended,
    Revoked,
    Pending,
}

/// The name of a certification state, as `Debug` writes it.
pub open spec fn certification_name(c: CertificationState) -> Seq<char> {
    match c {
        CertificationState::Certified => "Certified"@,
        CertificationState::Uncertified => "Uncertified"@,
        CertificationState::Suspended => "Suspended"@,
        CertificationState::Revoked => "Revoked"@,
        CertificationState::Pending => "Pending"@,
    }
}

impl CertificationState {
    /// The name of the state (its `Debug` form).
    pub fn debug_string(&self) -> (r: String)
        ensures
            r@ == certification_name(*self),
    {
        match self {
            CertificationState::Certified => owned("Certified"),
            CertificationState::Uncertified => owned("Uncertified"),
            CertificationState::Suspended => owned("Suspended"),
            CertificationState::Revoked => owned("Revoked"),
            CertificationState::Pending => owned("Pending"),
        }
    }
}

/// A copy of a map of texts, with the same keys and values.
fn copy_meta(m: &StrMap<String>) -> (r: StrMap<String>)
    ensures
        r.keys_view() == m.keys_view(),
        r.vals_view() == m.vals_view(),
        r@ == m@,
{
    let r = m.clone();
    assert forall|i: int| 0 <= i < m.vals_view().len() implies #[trigger] r.vals_view()[i] == m.vals_view()[i] by {
        assert(cloned::<String>(m.vals_view()[i], r.vals_view()[i]));
    }
    assert(r.vals_view() =~= m.vals_view());
    r
}

#[derive(Debug, PartialEq, Eq)]
pub struct VectorState {
    pub name: String,
    pub vector_type: VectorType,
    pub components: Vec<u128>,
    pub owner: Option<String>,
    pub meta: StrMap<String>,
    pub certification: CertificationState,
    pub auth_ratio: String,
}

pub struct VectorStateView {
    pub name: Seq<char>,
    pub vector_type: VectorType,
    pub components: Seq<u128>,
    pub owner: Option<Seq<char>>,
    pub meta: Map<Seq<char>, Seq<char>>,
    pub certification: CertificationState,
    pub auth_ratio: Seq<char>,
}

impl View for VectorState {
    type V = VectorStateView;

    open spec fn view(&self) -> VectorStateView {
        VectorStateView {
            name: self.name@,
            vector_type: self.vector_type,
            components: self.components@,
            owner: crate::ast::opt_view(self.owner),
            meta: self.meta@,
            certification: self.certification,
            auth_ratio: self.auth_ratio@,
        }
    }
}

impl VectorState {
    /// The sum of the components.
    pub fn magnitude(&self) -> (r: u128)
        requires
            sum(self.components@) <= u128::MAX,
        ensures
            r == sum(self.components@),
    {
        crate::allocation::component_total(&self.components)
    }

    /// Whether every component is zero.
    pub fn is_zero(&self) -> (r: bool)
        ensures
            r == (forall|i: int| 0 <= i < self.components@.len() ==> self.components@[i] == 0),
    {
        let mut i: usize = 0;
        while i < self.components.len()
            invariant
                i <= self.components.len(),
                forall|j: int| 0 <= j < i ==> self.components@[j] == 0,
            decreases self.components.len() - i,
        {
            if self.components[i] != 0 {
                return false;
            }
            i = i + 1;
        }
        true
    }
}

impl Clone for VectorState {
    fn clone(&self) -> (r: Self)
        ensures
            r@ == self@,
            r.meta.wf() == self.meta.wf(),
    {
        let meta = copy_meta(&self.meta);
        VectorState {
            name: copy_string(&self.name),
            vector_type: self.vector_type,
            components: copy_u128s(&self.components),
            owner: copy_opt_string(&self.owner),
            meta,
            certification: self.certification,
            auth_ratio: copy_string(&self.auth_ratio),
        }
    }
}

#[derive(Debug, PartialEq, Eq)]
pub struct WalletState {
    pub name: String,
    pub public_key: String,
    pub meta: StrMap<String>,
}

pub struct WalletStateView {
    pub name: Seq<char>,
    pub public_key: Seq<char>,
    pub meta: Map<Seq<char>, Seq<char>>,
}

impl View for WalletState {
    type V = WalletStateView;

    open spec fn view(&self) -> WalletStateView {
        WalletStateView { name: self.name@, public_key: self.public_key@, meta: self.meta@ }
    }
}

impl Clone for WalletState {
    fn clone(&self) -> (r: Self)
        ensures
            r@ == self@,
            r.meta.wf() == self.meta.wf(),
    {
        let meta = copy_meta(&self.meta);
        WalletState { name: copy_string(&self.name), public_key: copy_string(&self.public_key), meta }
    }
}

#[derive(Debug, PartialEq, Eq)]
pub struct ProjectionState {
    pub projection_id: String,
    pub source: String,
    pub environment: String,
    pub locked: Vec<u128>,
    pub remainder: Vec<u128>,
    pub policy: Option<String>,
    pub consumed: bool,
    pub settlement_result: Option<String>,
}

pub struct ProjectionStateView {
    pub projection_id: Seq<char>,
    pub source: Seq<char>,
    pub environment: Seq<char>,
    pub locked: Seq<u128>,
    pub remainder: Seq<u128>,
    pub policy: Option<Seq<char>>,
    pub consumed: bool,
    pub settlement_result: Option<Seq<char>>,
}

impl View for ProjectionState {
    type V = ProjectionStateView;

    open spec fn view(&self) -> ProjectionStateView {
        ProjectionStateView {
            projection_id: self.projection_id@,
            source: self.source@,
            environment: self.environment@,
            locked: self.locked@,
            remainder: self.remainder@,
            policy: crate::ast::opt_view(self.policy),
            consumed: self.consumed,
            settlement_result: crate::ast::opt_view(self.settlement_result),
        }
    }
}

impl Clone for ProjectionState {
    fn clone(&self) -> (r: Self)
        ensures
            r@ == self@,
    {
        ProjectionState {
            projection_id: copy_string(&self.projection_id),
            source: copy_string(&self.source),
            environment: copy_string(&self.environment),
            locked: copy_u128s(&self.locked),
            remainder: copy_u128s(&self.remainder),
            policy: copy_opt_string(&self.policy),
            consumed: self.consumed,
            settlement_result: copy_opt_string(&self.settlement_result),
        }
    }
}

#[derive(Debug, PartialEq, Eq)]
pub struct ContractState {
    pub name: String,
    pub actions: Vec<String>,
}

pub struct ContractStateView {
    pub name: Seq<char>,
    pub actions: Seq<Seq<char>>,
}

impl View for ContractState {
    type V = ContractStateView;

    open spec fn view(&self) -> ContractStateView {
        ContractStateView { name: self.name@, actions: views(self.actions@) }
    }
}

impl Clone for ContractState {
    fn clone(&self) -> (r: Self)
        ensures
            r@ == self@,
    {
        ContractState { name: copy_string(&self.name), actions: copy_strings(&self.actions) }
    }
}

} // verus!
verus! {

#[derive(Debug)]
pub struct NetworkState {
    pub vectors: StrMap<VectorState>,
    pub wallets: StrMap<WalletState>,
    pub projections: StrMap<ProjectionState>,
    pub contracts: StrMap<ContractState>,
    pub events: Vec<Event>,
    pub logical_clock: u64,
    pub last_event_hash: Option<String>,
}

/// The network state as maps, sequences and plain values.
pub struct NetworkStateView {
    pub vectors: Map<Seq<char>, VectorStateView>,
    pub wallets: Map<Seq<char>, WalletStateView>,
    pub projections: Map<Seq<char>, ProjectionStateView>,
    pub contracts: Map<Seq<char>, ContractStateView>,
    pub events: Seq<EventView>,
    pub logical_clock: u64,
    pub last_event_hash: Option<Seq<char>>,
}

/// The views of a sequence of events.
pub open spec fn event_views(es: Seq<Event>) -> Seq<EventView> {
    es.map_values(|e: Event| e@)
}

impl View for NetworkState {
    type V = NetworkStateView;

    open spec fn view(&self) -> NetworkStateView {
        NetworkStateView {
            vectors: self.vectors@,
            wallets: self.wallets@,
            projections: self.projections@,
            contracts: self.contracts@,
            events: event_views(self.events@),
            logical_clock: self.logical_clock,
            last_event_hash: crate::ast::opt_view(self.last_event_hash),
        }
    }
}

/// The clock after one tick: one more, stopping at `u64::MAX`.
pub open spec fn next_clock_value(c: u64) -> u64 {
    if c == u64::MAX { c } else { (c + 1) as u64 }
}

/// The state with an event appended: it becomes the last event, and the
/// clock takes the event's value.
pub open spec fn with_event(s: NetworkStateView, e: EventView) -> NetworkStateView {
    NetworkStateView {
        events: s.events.push(e),
        last_event_hash: Some(e.event_hash),
        logical_clock: e.logical_clock,
        ..s
    }
}

impl NetworkState {
    /// The view of the empty state.
    pub open spec fn new_view() -> NetworkStateView {
        NetworkStateView {
            vectors: Map::empty(),
            wallets: Map::empty(),
            projections: Map::empty(),
            contracts: Map::empty(),
            events: Seq::empty(),
            logical_clock: 0,
            last_event_hash: None,
        }
    }

    /// Every map keeps its keys in order.
    pub open spec fn wf(&self) -> bool {
        &&& self.vectors.wf()
        &&& self.wallets.wf()
        &&& self.projections.wf()
        &&& self.contracts.wf()
    }

    /// The empty state: nothing named, no events, the clock at zero.
    pub fn new() -> (r: Self)
        ensures
            r.wf(),
            r@ == Self::new_view(),
    {
        let r = NetworkState {
            vectors: StrMap::new(),
            wallets: StrMap::new(),
            projections: StrMap::new(),
            contracts: StrMap::new(),
            events: Vec::new(),
            logical_clock: 0,
            last_event_hash: None,
        };
        assert(r@.vectors =~= Map::empty());
        assert(r@.wallets =~= Map::empty());
        assert(r@.projections =~= Map::empty());
        assert(r@.contracts =~= Map::empty());
        assert(r@.events =~= Seq::empty());
        r
    }

    /// Advances the clock by one (stopping at `u64::MAX`) and returns it.
    pub fn next_clock(&mut self) -> (r: u64)
        ensures
            r == next_clock_value(old(self).logical_clock),
            final(self)@ == (NetworkStateView { logical_clock: r, ..old(self)@ }),
            final(self).wf() == old(self).wf(),
    {
        self.logical_clock = self.logical_clock.saturating_add(1);
        self.logical_clock
    }

    /// Appends an event to the history and remembers its hash.
    pub fn push_event(&mut self, event: Event)
        ensures
            final(self)@ == (NetworkStateView {
                events: old(self)@.events.push(event@),
                last_event_hash: Some(event@.event_hash),
                ..old(self)@
            }),
            final(self).wf() == old(self).wf(),
    {
        let ghost e = event@;
        let ghost before = self.events@;
        self.last_event_hash = Some(copy_string(&event.event_hash));
        self.events.push(event);
        assert(event_views(self.events@) =~= event_views(before).push(e));
    }
}

/// A copy of a sequence of events.
fn copy_events(v: &Vec<Event>) -> (r: Vec<Event>)
    ensures
        event_views(r@) == event_views(v@),
{
    let mut r: Vec<Event> = Vec::new();
    for i in 0..v.len()
        invariant
            r.len() == i,
            forall|j: int| 0 <= j < i ==> (#[trigger] r@[j])@ == v@[j]@,
    {
        r.push(v[i].clone());
    }
    assert(event_views(r@) =~= event_views(v@));
    r
}

impl Clone for NetworkState {
    /// A copy with the same view.
    fn clone(&self) -> (r: Self)
        ensures
            self.wf() ==> r.wf() && r@ == self@,
    {
        let vectors = self.vectors.clone();
        let wallets = self.wallets.clone();
        let projections = self.projections.clone();
        let contracts = self.contracts.clone();
        proof {
            if self.wf() {
                assert forall|i: int| 0 <= i < self.vectors.vals_view().len() implies
                    (#[trigger] self.vectors.vals_view()[i])@ == vectors.vals_view()[i]@ by {
                    assert(cloned::<VectorState>(self.vectors.vals_view()[i], vectors.vals_view()[i]));
                }
                self.vectors.lemma_view_eq(vectors);
                assert forall|i: int| 0 <= i < self.wallets.vals_view().len() implies
                    (#[trigger] self.wallets.vals_view()[i])@ == wallets.vals_view()[i]@ by {
                    assert(cloned::<WalletState>(self.wallets.vals_view()[i], wallets.vals_view()[i]));
                }
                self.wallets.lemma_view_eq(wallets);
                assert forall|i: int| 0 <= i < self.projections.vals_view().len() implies
                    (#[trigger] self.projections.vals_view()[i])@ == projections.vals_view()[i]@ by {
                    assert(cloned::<ProjectionState>(self.projections.vals_view()[i], projections.vals_view()[i]));
                }
                self.projections.lemma_view_eq(projections);
                assert forall|i: int| 0 <= i < self.contracts.vals_view().len() implies
                    (#[trigger] self.contracts.vals_view()[i])@ == contracts.vals_view()[i]@ by {
                    assert(cloned::<ContractState>(self.contracts.vals_view()[i], contracts.vals_view()[i]));
                }
                self.contracts.lemma_view_eq(contracts);
            }
        }
        NetworkState {
            vectors,
            wallets,
            projections,
            contracts,
            events: copy_events(&self.events),
            logical_clock: self.logical_clock,
            last_event_hash: copy_opt_string(&self.last_event_hash),
        }
    }
}

} // verus!
verus! {

/// A vector is zero exactly when the sum of its components is zero; so
/// `is_zero` answers whether `magnitude` is zero, and a vector without
/// components is zero.
pub proof fn law_zero_iff_no_magnitude(c: Seq<u128>)
    ensures
        (forall|i: int| 0 <= i < c.len() ==> c[i] == 0) <==> sum(c) == 0,
    decreases c.len(),
{
    if c.len() > 0 {
        law_zero_iff_no_magnitude(c.drop_last());
        if forall|i: int| 0 <= i < c.len() ==> c[i] == 0 {
            assert forall|i: int| 0 <= i < c.drop_last().len() implies c.drop_last()[i] == 0 by {
                assert(c.drop_last()[i] == c[i]);
            }
            assert(c.last() == c[c.len() - 1]);
        }
        if sum(c) == 0 {
            assert forall|i: int| 0 <= i < c.len() implies c[i] == 0 by {
                if i < c.len() - 1 {
                    assert(c.drop_last()[i] == c[i]);
                }
            }
        }
    }
}

} // verus!
