//! The runtime: parses and compiles programs, runs their operations against
//! its state, and answers queries and record lookups.
use vstd::prelude::*;
use crate::allocation::sum;
use crate::ast::{Program, vector_type_name};
use crate::compiler::{compile_program, compile_spec};
use crate::error::{ParseErrorKind, ParseErrorKindView, RuntimeError, RuntimeErrorKind, RuntimeErrorKindView,
    RuntimeErrorView, plain_error, parse_error_message};
use crate::event::{EventView, event_text, vec_text, vector_to_string};
use crate::kernel::{KernelOp, KernelOpView, execute_kernel_op, kernel_step, op_fits, op_views, room_for, summable,
    splits_fit, step_succeeds};
use crate::parser::{parse, parse_spec};
use crate::state::{NetworkState, NetworkStateView, VectorState, VectorStateView, WalletState, WalletStateView,
    ProjectionState, ProjectionStateView, certification_name, event_views};
use crate::text::{dec, is_white, push_str, push_dec, push_char, owned, copy_string, str_eq, views};

verus! {

broadcast use vstd::string::group_string_axioms;

/// The pieces of a text between its dots (`str::split('.')`): one more
/// piece than there are dots, empty pieces included.
pub open spec fn split_dots(s: Seq<char>) -> Seq<Seq<char>>
    decreases s.len(),
{
    if s.len() == 0 {
        seq![Seq::<char>::empty()]
    } else {
        let init = split_dots(s.drop_last());
        if s.last() == '.' {
            init.push(Seq::empty())
        } else {
            init.update(init.len() - 1, init.last().push(s.last()))
        }
    }
}

proof fn lemma_split_dots_nonempty(s: Seq<char>)
    ensures
        split_dots(s).len() >= 1,
    decreases s.len(),
{
    if s.len() > 0 {
        lemma_split_dots_nonempty(s.drop_last());
    }
}

/// Splits a text at its dots.
pub fn split_dots_of(s: &str) -> (r: Vec<String>)
    ensures
        views(r@) == split_dots(s@),
{
    let mut parts: Vec<String> = Vec::new();
    let mut cur = String::new();
    let ghost mut seen: Seq<char> = Seq::empty();
    for c in it: s.chars()
        invariant
            it.seq() == s@,
            seen == s@.take(it.index() as int),
            views(parts@).push(cur@) == split_dots(seen),
    {
        proof {
            lemma_split_dots_nonempty(seen);
            assert(s@.take(it.index() + 1).drop_last() == seen);
        }
        let ghost before = views(parts@).push(cur@);
        if c == '.' {
            let done = cur;
            parts.push(done);
            cur = String::new();
            proof {
                assert(views(parts@).push(cur@) =~= before.push(Seq::empty()));
            }
        } else {
            push_char(&mut cur, c);
            proof {
                assert(views(parts@).push(cur@) =~= before.update(before.len() - 1, before.last().push(c)));
            }
        }
        proof {
            seen = s@.take(it.index() + 1);
        }
    }
    assert(seen == s@);
    let ghost all = views(parts@).push(cur@);
    parts.push(cur);
    assert(views(parts@) =~= all);
    parts
}

/// The text without its leading white space.
pub open spec fn trim_start(s: Seq<char>) -> Seq<char>
    decreases s.len(),
{
    if s.len() > 0 && is_white(s[0]) {
        trim_start(s.drop_first())
    } else {
        s
    }
}

/// The text without its trailing white space.
pub open spec fn trim_end(s: Seq<char>) -> Seq<char>
    decreases s.len(),
{
    if s.len() > 0 && is_white(s.last()) {
        trim_end(s.drop_last())
    } else {
        s
    }
}

/// The text without white space at either end (`str::trim`).
pub open spec fn trim(s: Seq<char>) -> Seq<char> {
    trim_end(trim_start(s))
}

/// The text without white space at either end.
pub fn trimmed(s: &str) -> (r: String)
    ensures
        r@ == trim(s@),
{
    let mut cs: Vec<char> = Vec::new();
    for c in it: s.chars()
        invariant
            it.seq() == s@,
            cs@ == s@.take(it.index() as int),
    {
        cs.push(c);
        assert(cs@ == s@.take(it.index() + 1));
    }
    assert(cs@ == s@);
    let n = cs.len();
    let mut i: usize = 0;
    while i < n && is_white_char(cs[i])
        invariant
            n == cs.len(),
            cs@ == s@,
            i <= n,
            trim_start(s@) == trim_start(s@.skip(i as int)),
        decreases n - i,
    {
        assert(s@.skip(i as int).drop_first() =~= s@.skip(i + 1));
        i = i + 1;
    }
    assert(trim_start(s@) == s@.subrange(i as int, n as int)) by {
        assert(s@.skip(i as int) =~= s@.subrange(i as int, n as int));
    }
    let mut j: usize = n;
    while j > i && is_white_char(cs[j - 1])
        invariant
            n == cs.len(),
            cs@ == s@,
            i <= j <= n,
            trim(s@) == trim_end(s@.subrange(i as int, j as int)),
        decreases j,
    {
        assert(s@.subrange(i as int, j as int).drop_last() =~= s@.subrange(i as int, j - 1));
        j = j - 1;
    }
    let mut out = String::new();
    let mut k: usize = i;
    while k < j
        invariant
            cs@ == s@,
            i <= k <= j <= n == cs.len(),
            out@ == s@.subrange(i as int, k as int),
        decreases j - k,
    {
        push_char(&mut out, cs[k]);
        assert(s@.subrange(i as int, k + 1) =~= s@.subrange(i as int, k as int).push(s@[k as int]));
        k = k + 1;
    }
    out
}

/// Whether a character is white space.
fn is_white_char(c: char) -> (r: bool)
    ensures
        r == is_white(c),
{
    let u = c as u32;
    (0x9 <= u && u <= 0xd) || u == 0x20 || u == 0x85 || u == 0xa0 || u == 0x1680 || (0x2000 <= u && u <= 0x200a)
        || u == 0x2028 || u == 0x2029 || u == 0x202f || u == 0x205f || u == 0x3000
}

} // verus!
verus! {

/// A vector as a query answers it: `name:type (a, b)`.
pub open spec fn vector_summary(v: VectorStateView) -> Seq<char> {
    v.name + ":"@ + vector_type_name(v.vector_type) + " "@ + vec_text(v.components)
}

/// What a query answers of a vector, given the path after its name.
pub open spec fn vector_answer(v: VectorStateView, tail: Seq<Seq<char>>) -> Seq<char> {
    if tail.len() == 0 {
        vector_summary(v) + " certification="@ + certification_name(v.certification) + " auth_ratio="@
            + v.auth_ratio
    } else if tail == seq!["vector"@] {
        vec_text(v.components)
    } else if tail == seq!["type"@] {
        vector_type_name(v.vector_type)
    } else if tail == seq!["magnitude"@] {
        dec(sum(v.components))
    } else if tail == seq!["certification"@] {
        certification_name(v.certification)
    } else if tail == seq!["auth_ratio"@] {
        v.auth_ratio
    } else if tail == seq!["owner"@] {
        match v.owner {
            Some(o) => o,
            None => "unbound"@,
        }
    } else {
        vector_summary(v)
    }
}

/// What a query answers of a wallet.
pub open spec fn wallet_answer(w: WalletStateView, tail: Seq<Seq<char>>) -> Seq<char> {
    if tail == seq!["pk"@] {
        w.public_key
    } else {
        "wallet "@ + w.name + " = "@ + w.public_key
    }
}

/// What a query answers of a projection.
pub open spec fn projection_answer(p: ProjectionStateView, tail: Seq<Seq<char>>) -> Seq<char> {
    if tail == seq!["status"@] {
        if p.consumed { "consumed"@ } else { "active"@ }
    } else if tail == seq!["environment"@] {
        p.environment
    } else if tail == seq!["policy"@] {
        match p.policy {
            Some(x) => x,
            None => "none"@,
        }
    } else if tail == seq!["locked"@] {
        vec_text(p.locked)
    } else {
        "projection "@ + p.projection_id + " from "@ + p.source
    }
}

/// What a query answers: the first piece names a vector, a wallet, a
/// projection or a contract (looked up in that order), the rest selects
/// what to say of it.
pub open spec fn query_answer(s: NetworkStateView, expr: Seq<char>) -> Result<Seq<char>, RuntimeErrorView> {
    let parts = split_dots(expr);
    let head = parts[0];
    let tail = parts.drop_first();
    if s.vectors.contains_key(head) {
        Ok(vector_answer(s.vectors[head], tail))
    } else if s.wallets.contains_key(head) {
        Ok(wallet_answer(s.wallets[head], tail))
    } else if s.projections.contains_key(head) {
        Ok(projection_answer(s.projections[head], tail))
    } else if s.contracts.contains_key(head) {
        Ok("contract "@ + s.contracts[head].name + " with "@ + dec(s.contracts[head].actions.len()) + " actions"@)
    } else {
        Err(plain_error(RuntimeErrorKindView::UnknownSymbol(head)))
    }
}

/// A query asks for the magnitude of a vector only where the sum of its
/// components fits in a `u128`.
pub open spec fn query_fits(s: NetworkStateView, expr: Seq<char>) -> bool {
    let parts = split_dots(expr);
    (s.vectors.contains_key(parts[0]) && parts.drop_first() == seq!["magnitude"@]) ==> sum(
        s.vectors[parts[0]].components) <= u128::MAX
}

/// Whether the path is exactly the one word.
fn path_is(tail: &Vec<String>, word: &str) -> (r: bool)
    ensures
        r == (views(tail@) == seq![word@]),
{
    if tail.len() == 1 {
        let b = str_eq(tail[0].as_str(), word);
        assert(b ==> views(tail@) =~= seq![word@]);
        assert(views(tail@) == seq![word@] ==> tail@[0]@ == views(tail@)[0]);
        b
    } else {
        assert(views(tail@).len() != 1);
        false
    }
}

fn resolve_vector_query(vector: &VectorState, tail: &Vec<String>) -> (r: String)
    requires
        views(tail@) == seq!["magnitude"@] ==> sum(vector.components@) <= u128::MAX,
    ensures
        r@ == vector_answer(vector@, views(tail@)),
{
    let ty = vector.vector_type.as_str();
    if tail.len() == 0 {
        let mut out = copy_string(&vector.name);
        push_str(&mut out, ":");
        push_str(&mut out, ty);
        push_str(&mut out, " ");
        let v = vector_to_string(vector.components.as_slice());
        push_str(&mut out, v.as_str());
        push_str(&mut out, " certification=");
        let c = vector.certification.debug_string();
        push_str(&mut out, c.as_str());
        push_str(&mut out, " auth_ratio=");
        push_str(&mut out, vector.auth_ratio.as_str());
        return out;
    }
    assert(views(tail@).len() != 0);
    if path_is(tail, "vector") {
        vector_to_string(vector.components.as_slice())
    } else if path_is(tail, "type") {
        owned(ty)
    } else if path_is(tail, "magnitude") {
        crate::text::u128_to_string(vector.magnitude())
    } else if path_is(tail, "certification") {
        vector.certification.debug_string()
    } else if path_is(tail, "auth_ratio") {
        copy_string(&vector.auth_ratio)
    } else if path_is(tail, "owner") {
        match &vector.owner {
            Some(o) => copy_string(o),
            None => owned("unbound"),
        }
    } else {
        let mut out = copy_string(&vector.name);
        push_str(&mut out, ":");
        push_str(&mut out, ty);
        push_str(&mut out, " ");
        let v = vector_to_string(vector.components.as_slice());
        push_str(&mut out, v.as_str());
        out
    }
}

fn resolve_wallet_query(wallet: &WalletState, tail: &Vec<String>) -> (r: String)
    ensures
        r@ == wallet_answer(wallet@, views(tail@)),
{
    if path_is(tail, "pk") {
        copy_string(&wallet.public_key)
    } else {
        let mut out = owned("wallet ");
        push_str(&mut out, wallet.name.as_str());
        push_str(&mut out, " = ");
        push_str(&mut out, wallet.public_key.as_str());
        out
    }
}

fn resolve_projection_query(proj: &ProjectionState, tail: &Vec<String>) -> (r: String)
    ensures
        r@ == projection_answer(proj@, views(tail@)),
{
    if path_is(tail, "status") {
        if proj.consumed { owned("consumed") } else { owned("active") }
    } else if path_is(tail, "environment") {
        copy_string(&proj.environment)
    } else if path_is(tail, "policy") {
        match &proj.policy {
            Some(p) => copy_string(p),
            None => owned("none"),
        }
    } else if path_is(tail, "locked") {
        vector_to_string(proj.locked.as_slice())
    } else {
        let mut out = owned("projection ");
        push_str(&mut out, proj.projection_id.as_str());
        push_str(&mut out, " from ");
        push_str(&mut out, proj.source.as_str());
        out
    }
}

} // verus!
verus! {

/// The first piece of a query, and the pieces after it.
fn head_and_tail(expr: &str) -> (r: (String, Vec<String>))
    ensures
        r.0@ == split_dots(expr@)[0],
        views(r.1@) == split_dots(expr@).drop_first(),
{
    let parts = split_dots_of(expr);
    proof {
        lemma_split_dots_nonempty(expr@);
    }
    let head = copy_string(&parts[0]);
    let mut tail: Vec<String> = Vec::new();
    let mut i: usize = 1;
    while i < parts.len()
        invariant
            1 <= i <= parts.len(),
            views(tail@) == views(parts@).subrange(1, i as int),
        decreases parts.len() - i,
    {
        let ghost prev = views(tail@);
        tail.push(copy_string(&parts[i]));
        assert(views(tail@) =~= prev.push(parts@[i as int]@));
        assert(views(tail@) =~= views(parts@).subrange(1, i + 1));
        i = i + 1;
    }
    assert(views(tail@) =~= split_dots(expr@).drop_first());
    (head, tail)
}

/// A text outcome by its views.
pub open spec fn text_outcome(r: Result<String, RuntimeError>) -> Result<Seq<char>, RuntimeErrorView> {
    match r {
        Ok(t) => Ok(t@),
        Err(e) => Err(e@),
    }
}

/// The first event whose id or hash is the text.
pub open spec fn find_event(es: Seq<EventView>, q: Seq<char>) -> Option<EventView>
    decreases es.len(),
{
    if es.len() == 0 {
        None
    } else if es[0].eid == q || es[0].event_hash == q {
        Some(es[0])
    } else {
        find_event(es.drop_first(), q)
    }
}

/// What a record lookup answers: `last` or `last_event` name the last
/// event, any other text (trimmed) the first event with that id or hash.
pub open spec fn record_answer(s: NetworkStateView, expr: Seq<char>) -> Result<Seq<char>, RuntimeErrorView> {
    let q = trim(expr);
    if q == "last"@ || q == "last_event"@ {
        if s.events.len() > 0 {
            Ok(event_text(s.events.last()))
        } else {
            Err(plain_error(RuntimeErrorKindView::RecordMissing(q)))
        }
    } else {
        match find_event(s.events, q) {
            Some(e) => Ok(event_text(e)),
            None => Err(plain_error(RuntimeErrorKindView::RecordMissing(q))),
        }
    }
}

/// `{query} => {value}`.
pub open spec fn rendered(query: Seq<char>, value: Seq<char>) -> Seq<char> {
    query + " => "@ + value
}

/// A query and its answer, as the runtime reports it.
pub fn render_query_output(query: &str, value: &str) -> (r: String)
    ensures
        r@ == rendered(query@, value@),
{
    let mut out = owned(query);
    push_str(&mut out, " => ");
    push_str(&mut out, value);
    out
}

#[derive(Debug)]
pub struct Runtime {
    pub state: NetworkState,
}

#[derive(Debug)]
pub struct ExecutionReport {
    pub outputs: Vec<String>,
    pub events: Vec<String>,
    pub final_state: NetworkState,
}

impl Runtime {
    /// A runtime over the empty state.
    pub fn new() -> (r: Self)
        ensures
            r.state.wf(),
            r.state@ == NetworkState::new_view(),
    {
        Runtime { state: NetworkState::new() }
    }

    /// Answers a query against the state.
    pub fn resolve_query(&self, expr: &str) -> (r: Result<String, RuntimeError>)
        requires
            self.state.wf(),
            query_fits(self.state@, expr@),
        ensures
            text_outcome(r) == query_answer(self.state@, expr@),
    {
        let (head_string, tail) = head_and_tail(expr);
        let head = head_string.as_str();
        if let Some(vector) = self.state.vectors.get(head) {
            return Ok(resolve_vector_query(vector, &tail));
        }
        if let Some(wallet) = self.state.wallets.get(head) {
            return Ok(resolve_wallet_query(wallet, &tail));
        }
        if let Some(proj) = self.state.projections.get(head) {
            return Ok(resolve_projection_query(proj, &tail));
        }
        if let Some(contract) = self.state.contracts.get(head) {
            let mut out = owned("contract ");
            push_str(&mut out, contract.name.as_str());
            push_str(&mut out, " with ");
            push_dec(&mut out, contract.actions.len() as u128);
            push_str(&mut out, " actions");
            return Ok(out);
        }
        Err(RuntimeError::new(RuntimeErrorKind::UnknownSymbol(owned(head))))
    }

    /// Looks up a recorded event and describes it.
    pub fn resolve_record(&self, expr: &str) -> (r: Result<String, RuntimeError>)
        ensures
            text_outcome(r) == record_answer(self.state@, expr@),
    {
        let query = trimmed(expr);
        let ghost es = self.state@.events;
        if str_eq(query.as_str(), "last") || str_eq(query.as_str(), "last_event") {
            let n = self.state.events.len();
            if n > 0 {
                return Ok(self.state.events[n - 1].message());
            }
            return Err(RuntimeError::new(RuntimeErrorKind::RecordMissing(query)));
        }
        let mut i: usize = 0;
        assert(es.skip(0) =~= es);
        while i < self.state.events.len()
            invariant
                es == event_views(self.state.events@),
                es == self.state@.events,
                query@ == trim(expr@),
                query@ != "last"@,
                query@ != "last_event"@,
                i <= self.state.events.len(),
                find_event(es, query@) == find_event(es.skip(i as int), query@),
            decreases self.state.events.len() - i,
        {
            let e = &self.state.events[i];
            assert(es.skip(i as int)[0] == e@);
            if str_eq(e.eid.as_str(), query.as_str()) || str_eq(e.event_hash.as_str(), query.as_str()) {
                assert(find_event(es.skip(i as int), query@) == Some(e@));
                return Ok(e.message());
            }
            assert(es.skip(i as int).drop_first() =~= es.skip(i + 1));
            i = i + 1;
        }
        Err(RuntimeError::new(RuntimeErrorKind::RecordMissing(query)))
    }
}

} // verus!
verus! {

/// What the runtime makes of one operation: the next state, and either the
/// line it outputs (if any) and the hash of the event it records (if
/// any), or the error. Queries and record lookups are answered here; the
/// rest goes to the kernel.
pub type RunStep = (NetworkStateView, Result<(Option<Seq<char>>, Option<Seq<char>>), RuntimeErrorView>);

/// The outcome of a whole run: the final state, and either the output
/// lines and the hashes of the recorded events, or the first error.
pub type Run = (NetworkStateView, Result<(Seq<Seq<char>>, Seq<Seq<char>>), RuntimeErrorView>);

pub open spec fn run_op(s: NetworkStateView, op: KernelOpView) -> RunStep {
    match op {
        KernelOpView::Query { expr } => (s, match query_answer(s, expr) {
            Ok(v) => Ok((Some(rendered(expr, v)), None)),
            Err(e) => Err(e),
        }),
        KernelOpView::Record { expr } => (s, match record_answer(s, expr) {
            Ok(v) => Ok((Some(rendered(expr, v)), None)),
            Err(e) => Err(e),
        }),
        _ => {
            let (t, r) = kernel_step(s, op);
            (t, match r {
                Ok(k) => Ok((k.output, match k.record {
                    Some(e) => Some(e.event_hash),
                    None => None,
                })),
                Err(e) => Err(e),
            })
        },
    }
}

/// The one-element or empty sequence.
pub open spec fn opt_seq(o: Option<Seq<char>>) -> Seq<Seq<char>> {
    match o {
        Some(x) => seq![x],
        None => Seq::empty(),
    }
}

/// A run with lines and hashes put in front of what it reports.
pub open spec fn after(outputs: Seq<Seq<char>>, hashes: Seq<Seq<char>>, r: Run) -> Run {
    (r.0, match r.1 {
        Ok((os, hs)) => Ok((outputs + os, hashes + hs)),
        Err(e) => Err(e),
    })
}

/// Runs the operations in order, stopping at the first error (the state
/// keeps what the operations before it did).
pub open spec fn run_ops(s: NetworkStateView, ops: Seq<KernelOpView>) -> Run
    decreases ops.len(),
{
    if ops.len() == 0 {
        (s, Ok((Seq::empty(), Seq::empty())))
    } else {
        let (s1, r1) = run_op(s, ops[0]);
        match r1 {
            Err(e) => (s1, Err(e)),
            Ok((o, h)) => after(opt_seq(o), opt_seq(h), run_ops(s1, ops.drop_first())),
        }
    }
}

/// The operation can run on the state without overflow.
pub open spec fn op_runs(s: NetworkStateView, op: KernelOpView) -> bool {
    match op {
        KernelOpView::Query { expr } => query_fits(s, expr),
        KernelOpView::Record { .. } => true,
        _ => op_fits(s, op),
    }
}

/// Every operation of the run can run on the state it meets.
pub open spec fn run_fits(s: NetworkStateView, ops: Seq<KernelOpView>) -> bool
    decreases ops.len(),
{
    ops.len() == 0 || (op_runs(s, ops[0]) && (run_op(s, ops[0]).1 is Ok ==> run_fits(run_op(s, ops[0]).0,
        ops.drop_first())))
}

/// The outcome of a report by its views.
pub open spec fn report_outcome(r: Result<ExecutionReport, RuntimeError>) -> Result<
    (Seq<Seq<char>>, Seq<Seq<char>>),
    RuntimeErrorView,
> {
    match r {
        Ok(rep) => Ok((views(rep.outputs@), views(rep.events@))),
        Err(e) => Err(e@),
    }
}

proof fn lemma_after_step(
    outputs: Seq<Seq<char>>,
    hashes: Seq<Seq<char>>,
    s: NetworkStateView,
    ops: Seq<KernelOpView>,
    i: int,
)
    requires
        0 <= i < ops.len(),
        run_op(s, ops[i]).1 is Ok,
    ensures
        ({
            let (o, h) = run_op(s, ops[i]).1->Ok_0;
            after(outputs, hashes, run_ops(s, ops.skip(i))) == after(outputs + opt_seq(o), hashes + opt_seq(h),
                run_ops(run_op(s, ops[i]).0, ops.skip(i + 1)))
        }),
{
    let (o, h) = run_op(s, ops[i]).1->Ok_0;
    assert(ops.skip(i)[0] == ops[i]);
    assert(ops.skip(i).drop_first() =~= ops.skip(i + 1));
    let rest = run_ops(run_op(s, ops[i]).0, ops.skip(i + 1));
    match rest.1 {
        Ok((os, hs)) => {
            assert(outputs + (opt_seq(o) + os) =~= outputs + opt_seq(o) + os);
            assert(hashes + (opt_seq(h) + hs) =~= hashes + opt_seq(h) + hs);
        },
        Err(e) => {},
    }
}

} // verus!
verus! {

/// The operations in reverse order, so that they can be taken from the
/// back one by one.
fn reversed(ops: Vec<KernelOp>) -> (r: Vec<KernelOp>)
    ensures
        r.len() == ops.len(),
        forall|j: int| 0 <= j < r.len() ==> (#[trigger] r@[j])@ == ops@[ops.len() - 1 - j]@,
{
    let ghost all = ops@;
    let mut ops = ops;
    let mut rev: Vec<KernelOp> = Vec::new();
    while ops.len() > 0
        invariant
            ops@ == all.take(all.len() - rev.len()),
            rev.len() <= all.len(),
            forall|j: int| 0 <= j < rev.len() ==> (#[trigger] rev@[j])@ == all[all.len() - 1 - j]@,
        decreases ops.len(),
    {
        let ghost before = ops@;
        match ops.pop() {
            Some(x) => {
                assert(x == before.last());
                rev.push(x);
                assert(ops@ =~= all.take(all.len() - rev.len()));
            },
            None => {},
        }
    }
    rev
}

impl Runtime {
    /// Runs the operations against the state, in order: queries and record
    /// lookups are answered (`query => answer`), the rest go to the kernel
    /// (their output lines and the hashes of the events they return are
    /// collected). The first error ends the run; what came before it
    /// stays done.
    pub fn execute_ops(&mut self, ops: Vec<KernelOp>) -> (r: Result<ExecutionReport, RuntimeError>)
        requires
            old(self).state.wf(),
            run_fits(old(self).state@, op_views(ops@)),
        ensures
            final(self).state.wf(),
            final(self).state@ == run_ops(old(self).state@, op_views(ops@)).0,
            report_outcome(r) == run_ops(old(self).state@, op_views(ops@)).1,
            r matches Ok(rep) ==> rep.final_state@ == final(self).state@,
    {
        let ghost all = op_views(ops@);
        let ghost s0 = self.state@;
        let n = ops.len();
        let mut rev = reversed(ops);
        let mut outputs: Vec<String> = Vec::new();
        let mut hashes: Vec<String> = Vec::new();
        let ghost mut i: int = 0;
        assert(all.skip(0) =~= all);
        assert(views(outputs@) =~= Seq::<Seq<char>>::empty());
        assert(views(hashes@) =~= Seq::<Seq<char>>::empty());
        assert(after(Seq::empty(), Seq::empty(), run_ops(s0, all)) == run_ops(s0, all)) by {
            let r = run_ops(s0, all);
            match r.1 {
                Ok((os, hs)) => {
                    assert(Seq::<Seq<char>>::empty() + os =~= os);
                    assert(Seq::<Seq<char>>::empty() + hs =~= hs);
                },
                Err(e) => {},
            }
        }
        while rev.len() > 0
            invariant
                self.state.wf(),
                s0 == old(self).state@,
                all == op_views(ops@),
                n == all.len(),
                rev.len() + i == n,
                0 <= i <= n,
                forall|j: int| 0 <= j < rev.len() ==> (#[trigger] rev@[j])@ == all[n - 1 - j],
                run_ops(s0, all) == after(views(outputs@), views(hashes@), run_ops(self.state@, all.skip(i))),
                run_fits(self.state@, all.skip(i)),
            decreases rev.len(),
        {
            let ghost before = rev@;
            let op = rev.pop().unwrap();
            assert(op@ == all[i]);
            assert(all.skip(i)[0] == all[i]);
            assert(all.skip(i).drop_first() =~= all.skip(i + 1));
            let ghost s = self.state@;
            proof {
                if run_op(s, all[i]).1 is Ok {
                    lemma_after_step(views(outputs@), views(hashes@), s, all, i);
                } else {
                    assert(run_ops(s, all.skip(i)) == (run_op(s, all[i]).0, Err::<(Seq<Seq<char>>, Seq<Seq<char>>),
                        RuntimeErrorView>(run_op(s, all[i]).1->Err_0)));
                }
            }
            match op {
                KernelOp::Query { expr } => {
                    match self.resolve_query(expr.as_str()) {
                        Ok(resolved) => {
                            let ghost prev = views(outputs@);
                            outputs.push(render_query_output(expr.as_str(), resolved.as_str()));
                            assert(views(outputs@) =~= prev + opt_seq(Some(rendered(expr@, resolved@))));
                            assert(views(hashes@) =~= views(hashes@) + opt_seq(None));
                        },
                        Err(e) => {
                            return Err(e);
                        },
                    }
                },
                KernelOp::Record { expr } => {
                    match self.resolve_record(expr.as_str()) {
                        Ok(resolved) => {
                            let ghost prev = views(outputs@);
                            outputs.push(render_query_output(expr.as_str(), resolved.as_str()));
                            assert(views(outputs@) =~= prev + opt_seq(Some(rendered(expr@, resolved@))));
                            assert(views(hashes@) =~= views(hashes@) + opt_seq(None));
                        },
                        Err(e) => {
                            return Err(e);
                        },
                    }
                },
                other => {
                    match execute_kernel_op(&mut self.state, other) {
                        Ok(result) => {
                            let ghost prev_o = views(outputs@);
                            let ghost prev_h = views(hashes@);
                            match result.output {
                                Some(out) => {
                                    outputs.push(out);
                                },
                                None => {},
                            }
                            match result.record {
                                Some(record) => {
                                    hashes.push(copy_string(&record.event_hash));
                                },
                                None => {},
                            }
                            assert(views(outputs@) =~= prev_o + opt_seq(run_op(s, all[i]).1->Ok_0.0));
                            assert(views(hashes@) =~= prev_h + opt_seq(run_op(s, all[i]).1->Ok_0.1));
                        },
                        Err(e) => {
                            return Err(e);
                        },
                    }
                },
            }
            proof {
                i = i + 1;
            }
        }
        assert(all.skip(n as int) =~= Seq::<KernelOpView>::empty());
        assert(views(outputs@) + Seq::<Seq<char>>::empty() =~= views(outputs@));
        assert(views(hashes@) + Seq::<Seq<char>>::empty() =~= views(hashes@));
        Ok(ExecutionReport { outputs, events: hashes, final_state: self.state.clone() })
    }
}

} // verus!
verus! {

/// The runtime error that a parse error becomes: its message, as a parse
/// error message.
pub open spec fn parse_failure(e: crate::error::ParseErrorView) -> RuntimeErrorView {
    plain_error(RuntimeErrorKindView::Parse(ParseErrorKindView::Message(parse_error_message(e))))
}

/// Compiling a program and running its operations; a program that does not
/// compile changes nothing.
pub open spec fn program_run(s: NetworkStateView, p: Seq<crate::ast::StatementView>) -> Run {
    match compile_spec(p) {
        Ok(ops) => run_ops(s, ops),
        Err(e) => (s, Err(e)),
    }
}

/// Parsing a source, then compiling and running it.
pub open spec fn source_run(s: NetworkStateView, src: Seq<char>) -> Run {
    match parse_spec(src) {
        Ok(p) => program_run(s, p),
        Err(e) => (s, Err(parse_failure(e))),
    }
}

/// The program's operations, if it compiles, can run on the state.
pub open spec fn program_fits(s: NetworkStateView, p: Seq<crate::ast::StatementView>) -> bool {
    compile_spec(p) matches Ok(ops) ==> run_fits(s, ops)
}

/// The source's program, if it parses, fits the state.
pub open spec fn source_fits(s: NetworkStateView, src: Seq<char>) -> bool {
    parse_spec(src) matches Ok(p) ==> program_fits(s, p)
}

impl Runtime {
    /// Parses a source; a parse error becomes a runtime error that carries
    /// its message.
    pub fn parse(&self, source: &str) -> (r: Result<Program, RuntimeError>)
        ensures
            match parse_spec(source@) {
                Ok(ss) => r matches Ok(p) && p@ == ss,
                Err(e) => r matches Err(x) && x@ == parse_failure(e),
            },
    {
        match parse(source) {
            Ok(p) => Ok(p),
            Err(e) => Err(RuntimeError::new(RuntimeErrorKind::Parse(ParseErrorKind::Message(e.message())))),
        }
    }

    /// Compiles a program to its kernel operations.
    pub fn compile(&self, program: &Program) -> (r: Result<Vec<KernelOp>, RuntimeError>)
        ensures
            match compile_spec(program@) {
                Ok(ops) => r matches Ok(v) && op_views(v@) == ops,
                Err(e) => r matches Err(x) && x@ == e,
            },
    {
        match compile_program(program) {
            Ok(unit) => Ok(unit.ops),
            Err(e) => Err(e),
        }
    }

    /// Compiles a program and runs it.
    pub fn execute_program(&mut self, program: &Program) -> (r: Result<ExecutionReport, RuntimeError>)
        requires
            old(self).state.wf(),
            program_fits(old(self).state@, program@),
        ensures
            final(self).state.wf(),
            final(self).state@ == program_run(old(self).state@, program@).0,
            report_outcome(r) == program_run(old(self).state@, program@).1,
            r matches Ok(rep) ==> rep.final_state@ == final(self).state@,
    {
        let ops = match self.compile(program) {
            Ok(ops) => ops,
            Err(e) => {
                return Err(e);
            },
        };
        self.execute_ops(ops)
    }

    /// Parses a source, compiles it and runs it.
    pub fn execute_source(&mut self, source: &str) -> (r: Result<ExecutionReport, RuntimeError>)
        requires
            old(self).state.wf(),
            source_fits(old(self).state@, source@),
        ensures
            final(self).state.wf(),
            final(self).state@ == source_run(old(self).state@, source@).0,
            report_outcome(r) == source_run(old(self).state@, source@).1,
            r matches Ok(rep) ==> rep.final_state@ == final(self).state@,
    {
        let program = match self.parse(source) {
            Ok(p) => p,
            Err(e) => {
                return Err(e);
            },
        };
        self.execute_program(&program)
    }
}

} // verus!
verus! {

/// The sum of the components, or `None` where it does not fit in a `u128`.
fn checked_total(c: &Vec<u128>) -> (r: Option<u128>)
    ensures
        match r {
            Some(t) => t == sum(c@),
            None => sum(c@) > u128::MAX,
        },
{
    let mut t: u128 = 0;
    let mut i: usize = 0;
    while i < c.len()
        invariant
            i <= c.len(),
            t == sum(c@.take(i as int)),
        decreases c.len() - i,
    {
        assert(c@.take(i + 1).drop_last() =~= c@.take(i as int));
        match t.checked_add(c[i]) {
            Some(x) => {
                t = x;
            },
            None => {
                proof {
                    crate::allocation::lemma_sum_prefix_bound(c@, i + 1);
                }
                return None;
            },
        }
        i = i + 1;
    }
    assert(c@.take(c.len() as int) =~= c@);
    Some(t)
}

/// Whether the state has room for `n` more events.
fn has_room(state: &NetworkState, n: u64) -> (r: bool)
    ensures
        r == room_for(state@, n as nat),
{
    let clock_ok = (state.logical_clock as u128) + (n as u128) + 1_700_000_000 <= u64::MAX as u128;
    let events_ok = (state.events.len() as u128) + (n as u128) <= usize::MAX as u128;
    clock_ok && events_ok
}

/// Whether the vector under `name`, if any, has a sum that fits.
fn sum_fits(state: &NetworkState, name: &str) -> (r: bool)
    requires
        state.wf(),
    ensures
        r == summable(state@, name@),
{
    match state.vectors.get(name) {
        Some(v) => checked_total(&v.components).is_some(),
        None => true,
    }
}

/// Whether every sum that the operation takes fits.
fn splits_fit_now(state: &NetworkState, op: &KernelOp) -> (r: bool)
    requires
        state.wf(),
    ensures
        r == splits_fit(state@, op@),
{
    match op {
        KernelOp::Transfer { source, destination, .. } => {
            match (state.vectors.get(source.as_str()), state.vectors.get(destination.as_str())) {
                (Some(sv), Some(dv)) => {
                    if type_compatible(sv.vector_type, dv.vector_type) && sv.components.len() == dv.components.len() {
                        checked_total(&sv.components).is_some()
                    } else {
                        true
                    }
                },
                _ => true,
            }
        },
        KernelOp::Drain { target, .. } => sum_fits(state, target.as_str()),
        KernelOp::Project { source, .. } => sum_fits(state, source.as_str()),
        _ => true,
    }
}

/// Whether the operation can run on the state without overflow.
fn op_can_run(state: &NetworkState, op: &KernelOp) -> (r: bool)
    requires
        state.wf(),
    ensures
        r == op_runs(state@, op@),
{
    match op {
        KernelOp::Query { expr } => {
            let (head, tail) = head_and_tail(expr.as_str());
            match state.vectors.get(head.as_str()) {
                Some(v) => {
                    if path_is(&tail, "magnitude") {
                        checked_total(&v.components).is_some()
                    } else {
                        true
                    }
                },
                None => true,
            }
        },
        KernelOp::Record { .. } => true,
        _ => {
            if !splits_fit_now(state, op) {
                return false;
            }
            let n: u64 = match op {
                KernelOp::Transfer { .. } => 2,
                _ => 1,
            };
            !step_succeeds(state, op) || has_room(state, n)
        },
    }
}

fn type_compatible(a: crate::ast::VectorType, b: crate::ast::VectorType) -> (r: bool)
    ensures
        r == crate::kernel::compatible(a, b),
{
    crate::kernel::type_compatible_for_transfer(a, b)
}

impl Runtime {
    /// Whether running the source would stay clear of overflow: every
    /// operation it reaches has room for its events and sums that fit.
    /// Where this is false, running the source is out of bounds.
    pub fn fits(&self, source: &str) -> (r: bool)
        requires
            self.state.wf(),
        ensures
            r == source_fits(self.state@, source@),
    {
        let program = match self.parse(source) {
            Ok(p) => p,
            Err(_) => {
                return true;
            },
        };
        let ops = match self.compile(&program) {
            Ok(ops) => ops,
            Err(_) => {
                return true;
            },
        };
        let ghost all = op_views(ops@);
        let mut scratch = Runtime { state: self.state.clone() };
        let ghost s0 = scratch.state@;
        let n = ops.len();
        let mut rev = reversed(ops);
        let ghost mut i: int = 0;
        assert(all.skip(0) =~= all);
        while rev.len() > 0
            invariant
                scratch.state.wf(),
                s0 == self.state@,
                compile_spec(program@) == Ok::<Seq<KernelOpView>, RuntimeErrorView>(all),
                parse_spec(source@) == Ok::<Seq<crate::ast::StatementView>, crate::error::ParseErrorView>(program@),
                n == all.len(),
                rev.len() + i == n,
                0 <= i <= n,
                forall|j: int| 0 <= j < rev.len() ==> (#[trigger] rev@[j])@ == all[n - 1 - j],
                run_fits(s0, all) == run_fits(scratch.state@, all.skip(i)),
            decreases rev.len(),
        {
            let op = rev.pop().unwrap();
            assert(op@ == all[i]);
            assert(all.skip(i)[0] == all[i]);
            assert(all.skip(i).drop_first() =~= all.skip(i + 1));
            if !op_can_run(&scratch.state, &op) {
                return false;
            }
            let ok = match op {
                KernelOp::Query { expr } => scratch.resolve_query(expr.as_str()).is_ok(),
                KernelOp::Record { expr } => scratch.resolve_record(expr.as_str()).is_ok(),
                other => execute_kernel_op(&mut scratch.state, other).is_ok(),
            };
            if !ok {
                return true;
            }
            proof {
                i = i + 1;
            }
        }
        assert(all.skip(n as int) =~= Seq::<KernelOpView>::empty());
        true
    }
}

} // verus!
verus! {

/// A run keeps the history chained, operation after operation.
pub proof fn law_run_keeps_chain(s: NetworkStateView, ops: Seq<KernelOpView>)
    requires
        crate::history::chained(s),
        run_fits(s, ops),
    ensures
        crate::history::chained(run_ops(s, ops).0),
    decreases ops.len(),
{
    if ops.len() > 0 {
        let op = ops[0];
        match op {
            KernelOpView::Query { .. } => {},
            KernelOpView::Record { .. } => {},
            _ => {
                crate::history::law_chain_kept(s, op);
            },
        }
        if run_op(s, op).1 is Ok {
            law_run_keeps_chain(run_op(s, op).0, ops.drop_first());
        }
    }
}

/// A run only appends to the history: what was recorded before stays,
/// in place.
pub proof fn law_run_appends(s: NetworkStateView, ops: Seq<KernelOpView>)
    ensures
        run_ops(s, ops).0.events.len() >= s.events.len(),
        run_ops(s, ops).0.events.take(s.events.len() as int) == s.events,
    decreases ops.len(),
{
    if ops.len() > 0 {
        let op = ops[0];
        let t = run_op(s, op).0;
        crate::history::law_history_grows(s, op);
        assert(t.events.len() >= s.events.len());
        assert(t.events.take(s.events.len() as int) == s.events);
        if run_op(s, op).1 is Ok {
            law_run_appends(t, ops.drop_first());
            let u = run_ops(t, ops.drop_first()).0;
            assert(u.events.take(s.events.len() as int) =~= u.events.take(t.events.len() as int).take(
                s.events.len() as int));
        }
    }
}

/// The same source run on the same state gives the same state and the same
/// report: runs are deterministic, and so replayable.
pub proof fn law_replay(s1: NetworkStateView, s2: NetworkStateView, src: Seq<char>)
    requires
        s1 == s2,
    ensures
        source_run(s1, src) == source_run(s2, src),
{
}

/// A source that does not parse changes nothing and is answered with the
/// parse error's message.
pub proof fn law_parse_failure_changes_nothing(s: NetworkStateView, src: Seq<char>)
    requires
        parse_spec(src) is Err,
    ensures
        source_run(s, src) == (s, Err::<(Seq<Seq<char>>, Seq<Seq<char>>), RuntimeErrorView>(
            parse_failure(parse_spec(src)->Err_0))),
{
}

} // verus!
verus! {

impl Clone for Runtime {
    /// A copy over a copy of the state.
    fn clone(&self) -> (r: Self)
        ensures
            self.state.wf() ==> r.state.wf() && r.state@ == self.state@,
    {
        Runtime { state: self.state.clone() }
    }
}

impl Clone for ExecutionReport {
    /// A copy with the same lines, hashes and final state.
    fn clone(&self) -> (r: Self)
        ensures
            r.outputs@ == self.outputs@,
            r.events@ == self.events@,
            self.final_state.wf() ==> r.final_state.wf() && r.final_state@ == self.final_state@,
    {
        ExecutionReport {
            outputs: crate::text::copy_strings(&self.outputs),
            events: crate::text::copy_strings(&self.events),
            final_state: self.final_state.clone(),
        }
    }
}

} // verus!
verus! {

/// A text without dots.
pub open spec fn dotless(s: Seq<char>) -> bool {
    forall|i: int| 0 <= i < s.len() ==> s[i] != '.'
}

proof fn lemma_split_dotless(s: Seq<char>)
    requires
        dotless(s),
    ensures
        split_dots(s) == seq![s],
    decreases s.len(),
{
    if s.len() == 0 {
        assert(s =~= Seq::<char>::empty());
        assert(split_dots(s) =~= seq![s]);
    } else {
        assert forall|i: int| 0 <= i < s.drop_last().len() implies s.drop_last()[i] != '.' by {
            assert(s.drop_last()[i] == s[i]);
        }
        lemma_split_dotless(s.drop_last());
        assert(s.last() == s[s.len() - 1]);
        assert(s.drop_last().push(s.last()) =~= s);
        assert(split_dots(s) =~= seq![s]);
    }
}

/// A name, a dot and a word split into the name and the word.
proof fn lemma_split_path(a: Seq<char>, w: Seq<char>)
    requires
        dotless(a),
        dotless(w),
    ensures
        split_dots(a + "."@ + w) == seq![a, w],
    decreases w.len(),
{
    reveal_strlit(".");
    if w.len() == 0 {
        lemma_split_dotless(a);
        let t = a + "."@;
        assert(a + "."@ + w =~= t);
        assert(t.drop_last() =~= a);
        assert(t.last() == '.');
        assert(split_dots(t) =~= seq![a, Seq::<char>::empty()]);
        assert(w =~= Seq::<char>::empty());
    } else {
        lemma_split_path(a, w.drop_last());
        let t = a + "."@ + w;
        assert(t.drop_last() =~= a + "."@ + w.drop_last());
        assert(t.last() == w.last());
        assert(w.last() == w[w.len() - 1]);
        assert(w.drop_last().push(w.last()) =~= w);
        assert(split_dots(t) =~= seq![a, w]);
    }
}

/// Distinct certification states have distinct names, so a query tells
/// them apart.
pub proof fn law_certification_names_distinct(a: crate::state::CertificationState, b: crate::state::CertificationState)
    requires
        a != b,
    ensures
        certification_name(a) != certification_name(b),
{
    reveal_strlit("Certified");
    reveal_strlit("Uncertified");
    reveal_strlit("Suspended");
    reveal_strlit("Revoked");
    reveal_strlit("Pending");
    assert("Certified"@[0] != "Uncertified"@[0]);
    assert("Certified"@[0] != "Suspended"@[0]);
    assert("Certified"@[0] != "Revoked"@[0]);
    assert("Certified"@[0] != "Pending"@[0]);
    assert("Uncertified"@[0] != "Suspended"@[0]);
    assert("Uncertified"@[0] != "Revoked"@[0]);
    assert("Uncertified"@[0] != "Pending"@[0]);
    assert("Suspended"@[0] != "Revoked"@[0]);
    assert("Suspended"@[0] != "Pending"@[0]);
    assert("Revoked"@[0] != "Pending"@[0]);
}

/// After a certification, the query `target.certification` answers
/// `Certified` when the certification passed and `Uncertified` when it
/// did not.
pub proof fn law_certification_query(
    s: NetworkStateView,
    target: Seq<char>,
    context: Seq<char>,
    auth_ratio: Seq<char>,
    certified: bool,
)
    requires
        s.vectors.contains_key(target),
        dotless(target),
    ensures
        query_answer(crate::kernel::step_certify(s, target, context, auth_ratio, certified).0,
            target + ".certification"@) == Ok::<Seq<char>, RuntimeErrorView>(
            if certified { "Certified"@ } else { "Uncertified"@ }),
{
    reveal_strlit("certification");
    reveal_strlit("vector");
    reveal_strlit("type");
    reveal_strlit("magnitude");
    let w = "certification"@;
    assert(w != "vector"@ && w != "type"@ && w != "magnitude"@) by {
        assert(w.len() != "vector"@.len());
        assert(w.len() != "type"@.len());
        assert(w.len() != "magnitude"@.len());
    }
    assert(seq![w] != seq!["vector"@]) by { assert(seq![w][0] != seq!["vector"@][0]); }
    assert(seq![w] != seq!["type"@]) by { assert(seq![w][0] != seq!["type"@][0]); }
    assert(seq![w] != seq!["magnitude"@]) by { assert(seq![w][0] != seq!["magnitude"@][0]); }
    assert(dotless(w));
    lemma_split_path(target, w);
    let parts = split_dots(target + "."@ + w);
    assert(target + ".certification"@ == target + "."@ + w) by {
        reveal_strlit(".certification");
        reveal_strlit(".");
        assert(target + ".certification"@ =~= target + "."@ + w);
    }
    assert(parts.drop_first() =~= seq![w]);
}

/// The status query of a projection follows its life: a projection just
/// taken answers `active`, and once it has been reconstructed, `consumed`
/// (where its id names no vector or wallet, which a query looks at first).
pub proof fn law_projection_status(
    s: NetworkStateView,
    source: Seq<char>,
    target: Seq<char>,
    environment: Seq<char>,
    amount: u128,
    policy: Option<Seq<char>>,
    projection_id: Seq<char>,
)
    requires
        dotless(projection_id),
        !s.vectors.contains_key(projection_id),
        !s.wallets.contains_key(projection_id),
    ensures
        crate::kernel::step_project(s, source, environment, amount, policy, projection_id).1 is Ok
            ==> query_answer(crate::kernel::step_project(s, source, environment, amount, policy, projection_id).0,
            projection_id + ".status"@) == Ok::<Seq<char>, RuntimeErrorView>("active"@),
        crate::kernel::step_reconstruct(s, target, projection_id).1 is Ok ==> query_answer(
            crate::kernel::step_reconstruct(s, target, projection_id).0, projection_id + ".status"@)
            == Ok::<Seq<char>, RuntimeErrorView>("consumed"@),
{
    reveal_strlit("status");
    let w = "status"@;
    assert(dotless(w));
    lemma_split_path(projection_id, w);
    assert(projection_id + ".status"@ == projection_id + "."@ + w) by {
        reveal_strlit(".status");
        reveal_strlit(".");
        assert(projection_id + ".status"@ =~= projection_id + "."@ + w);
    }
    assert(split_dots(projection_id + "."@ + w).drop_first() =~= seq![w]);
    reveal(crate::kernel::next_event);
}

/// The two statuses are told apart.
pub proof fn law_status_answers_distinct(p: ProjectionStateView, q: ProjectionStateView)
    requires
        p.consumed != q.consumed,
    ensures
        projection_answer(p, seq!["status"@]) != projection_answer(q, seq!["status"@]),
{
    reveal_strlit("consumed");
    reveal_strlit("active");
    assert("consumed"@.len() != "active"@.len());
}

} // verus!
