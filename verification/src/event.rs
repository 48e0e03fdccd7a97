//! Event records, their canonical payload, and the FNV-1a hashes that
//! identify and sign them.
use vstd::prelude::*;
use crate::ast::{VectorType, vector_type_name};
use crate::text::{dec, hex_fixed, views, join, push_str, push_dec, push_hex, owned, copy_string, copy_strings,
    copy_u128s};
use crate::value::{nums_debug_items, push_nums};

verus! {

broadcast use vstd::string::group_string_axioms;

#[derive(Debug, PartialEq, Eq)]
pub struct Event {
    pub eid: String,
    pub parent_hashes: Vec<String>,
    pub region_id: String,
    pub entity_id: String,
    pub v_before: Vec<u128>,
    pub v_after: Vec<u128>,
    pub operation: String,
    pub params: String,
    pub auth_ratio: String,
    pub certified: bool,
    pub actor_pk: String,
    pub proof: String,
    pub logical_clock: u64,
    pub timestamp: u64,
    pub signature: String,
    pub event_hash: String,
}

/// An event with its texts as character sequences.
pub struct EventView {
    pub eid: Seq<char>,
    pub parent_hashes: Seq<Seq<char>>,
    pub region_id: Seq<char>,
    pub entity_id: Seq<char>,
    pub v_before: Seq<u128>,
    pub v_after: Seq<u128>,
    pub operation: Seq<char>,
    pub params: Seq<char>,
    pub auth_ratio: Seq<char>,
    pub certified: bool,
    pub actor_pk: Seq<char>,
    pub proof: Seq<char>,
    pub logical_clock: u64,
    pub timestamp: u64,
    pub signature: Seq<char>,
    pub event_hash: Seq<char>,
}

impl View for Event {
    type V = EventView;

    open spec fn view(&self) -> EventView {
        EventView {
            eid: self.eid@,
            parent_hashes: views(self.parent_hashes@),
            region_id: self.region_id@,
            entity_id: self.entity_id@,
            v_before: self.v_before@,
            v_after: self.v_after@,
            operation: self.operation@,
            params: self.params@,
            auth_ratio: self.auth_ratio@,
            certified: self.certified,
            actor_pk: self.actor_pk@,
            proof: self.proof@,
            logical_clock: self.logical_clock,
            timestamp: self.timestamp,
            signature: self.signature@,
            event_hash: self.event_hash@,
        }
    }
}

impl Clone for Event {
    /// A copy with the same view.
    fn clone(&self) -> (r: Self)
        ensures
            r@ == self@,
    {
        Event {
            eid: copy_string(&self.eid),
            parent_hashes: copy_strings(&self.parent_hashes),
            region_id: copy_string(&self.region_id),
            entity_id: copy_string(&self.entity_id),
            v_before: copy_u128s(&self.v_before),
            v_after: copy_u128s(&self.v_after),
            operation: copy_string(&self.operation),
            params: copy_string(&self.params),
            auth_ratio: copy_string(&self.auth_ratio),
            certified: self.certified,
            actor_pk: copy_string(&self.actor_pk),
            proof: copy_string(&self.proof),
            logical_clock: self.logical_clock,
            timestamp: self.timestamp,
            signature: copy_string(&self.signature),
            event_hash: copy_string(&self.event_hash),
        }
    }
}

#[derive(Debug, Clone, PartialEq, Eq)]
pub struct QueryRecord {
    pub query: String,
    pub result: String,
}

/// The parts joined by `|`.
pub fn canonical_join(parts: &[String]) -> (r: String)
    ensures
        r@ == join(views(parts@), "|"@),
{
    let ghost vs = views(parts@);
    let mut out = String::new();
    let mut i: usize = 0;
    while i < parts.len()
        invariant
            i <= parts.len(),
            vs == views(parts@),
            out@ == join(vs.take(i as int), "|"@),
        decreases parts.len() - i,
    {
        if i > 0 {
            push_str(&mut out, "|");
        }
        push_str(&mut out, parts[i].as_str());
        assert(vs.take(i + 1).drop_last() == vs.take(i as int));
        i = i + 1;
    }
    assert(vs.take(parts.len() as int) == vs);
    out
}

/// A vector written `(a, b, c)`.
pub open spec fn vec_text(v: Seq<u128>) -> Seq<char> {
    "("@ + nums_debug_items(v) + ")"@
}

/// Appends a vector written `(a, b, c)`.
pub fn push_vector(out: &mut String, v: &Vec<u128>)
    ensures
        final(out)@ == old(out)@ + vec_text(v@),
{
    push_str(out, "(");
    push_nums(out, v);
    push_str(out, ")");
}

/// A vector written `(a, b, c)`.
pub fn vector_to_string(v: &[u128]) -> (r: String)
    ensures
        r@ == vec_text(v@),
{
    let mut out = String::new();
    push_str(&mut out, "(");
    let ghost start = out@;
    let mut i: usize = 0;
    while i < v.len()
        invariant
            i <= v.len(),
            out@ == start + nums_debug_items(v@.take(i as int)),
        decreases v.len() - i,
    {
        if i > 0 {
            push_str(&mut out, ", ");
        }
        push_dec(&mut out, v[i]);
        assert(v@.take(i + 1).drop_last() == v@.take(i as int));
        i = i + 1;
    }
    assert(v@.take(v.len() as int) == v@);
    push_str(&mut out, ")");
    out
}

pub fn type_to_string(ty: VectorType) -> (r: &'static str)
    ensures
        r@ == vector_type_name(ty),
{
    ty.as_str()
}

pub open spec fn fnv_offset() -> u128 {
    0x6c62_272e_07bb_0142_62b8_2175_6295_c58d
}

pub open spec fn fnv_prime() -> u128 {
    0x0000_0000_0100_0000_0000_0000_0000_013b
}

/// The 128-bit FNV-1a state after the bytes.
pub open spec fn fnv_state(b: Seq<u8>) -> u128
    decreases b.len(),
{
    if b.len() == 0 {
        fnv_offset()
    } else {
        (fnv_state(b.drop_last()) ^ (b.last() as u128)).wrapping_mul(fnv_prime())
    }
}

/// The 128-bit FNV-1a hash of the UTF-8 bytes of a text, as 32 lowercase
/// hexadecimal digits.
pub open spec fn fnv_text(s: Seq<char>) -> Seq<char> {
    hex_fixed(fnv_state(vstd::utf8::encode_utf8(s)) as nat, 32)
}

/// The 128-bit FNV-1a hash of the input's bytes, as 32 hexadecimal digits.
pub fn fnv1a_128(input: &str) -> (r: String)
    ensures
        r@ == fnv_text(input@),
{
    let bytes = input.as_bytes();
    let ghost b = vstd::utf8::encode_utf8(input@);
    let mut hash: u128 = 0x6c62_272e_07bb_0142_62b8_2175_6295_c58d;
    let prime: u128 = 0x0000_0000_0100_0000_0000_0000_0000_013b;
    let mut i: usize = 0;
    assert(b.take(0) =~= Seq::<u8>::empty());
    while i < bytes.len()
        invariant
            i <= bytes.len(),
            bytes@ == b,
            prime == fnv_prime(),
            hash == fnv_state(b.take(i as int)),
        decreases bytes.len() - i,
    {
        assert(b.take(i + 1).drop_last() == b.take(i as int));
        hash = (hash ^ (bytes[i] as u128)).wrapping_mul(prime);
        i = i + 1;
    }
    assert(b.take(bytes.len() as int) == b);
    let mut out = String::new();
    push_hex(&mut out, hash, 32);
    out
}

/// The signature of an event: the hash of `hash:actor:clock`.
pub open spec fn signature_of(event_hash: Seq<char>, actor_pk: Seq<char>, clock: u64) -> Seq<char> {
    fnv_text(event_hash + ":"@ + actor_pk + ":"@ + dec(clock as nat))
}

pub fn derive_signature(event_hash: &str, actor_pk: &str, logical_clock: u64) -> (r: String)
    ensures
        r@ == signature_of(event_hash@, actor_pk@, logical_clock),
{
    let mut text = String::new();
    push_str(&mut text, event_hash);
    push_str(&mut text, ":");
    push_str(&mut text, actor_pk);
    push_str(&mut text, ":");
    push_dec(&mut text, logical_clock as u128);
    fnv1a_128(text.as_str())
}

/// The timestamp that a logical clock value stands for.
pub fn derive_timestamp(logical_clock: u64) -> (r: u64)
    requires
        logical_clock + 1_700_000_000 <= u64::MAX,
    ensures
        r == 1_700_000_000 + logical_clock,
{
    1_700_000_000 + logical_clock
}

pub fn derive_event_hash(payload: &str) -> (r: String)
    ensures
        r@ == fnv_text(payload@),
{
    fnv1a_128(payload)
}

} // verus!
verus! {

pub open spec fn bool_text(b: bool) -> Seq<char> {
    if b { "true"@ } else { "false"@ }
}

/// The fields of an event payload as `name=value`, in the order in which
/// they are listed.
pub open spec fn payload_parts(
    eid: Seq<char>,
    parents: Seq<Seq<char>>,
    region_id: Seq<char>,
    entity_id: Seq<char>,
    v_before: Seq<u128>,
    v_after: Seq<u128>,
    operation: Seq<char>,
    params: Seq<char>,
    auth_ratio: Seq<char>,
    certified: bool,
    actor_pk: Seq<char>,
    proof: Seq<char>,
    logical_clock: u64,
    timestamp: u64,
    signature: Seq<char>,
) -> Seq<Seq<char>> {
    seq![
        "eid="@ + eid,
        "parents="@ + join(parents, "|"@),
        "region_id="@ + region_id,
        "entity_id="@ + entity_id,
        "v_before="@ + vec_text(v_before),
        "v_after="@ + vec_text(v_after),
        "operation="@ + operation,
        "params="@ + params,
        "auth_ratio="@ + auth_ratio,
        "certified="@ + bool_text(certified),
        "actor_pk="@ + actor_pk,
        "proof="@ + proof,
        "logical_clock="@ + dec(logical_clock as nat),
        "timestamp="@ + dec(timestamp as nat),
        "signature="@ + signature,
    ]
}

/// Where each field of `payload_parts` stands once they are sorted
/// (`law_payload_order_sorted` shows that this order is ascending).
pub open spec fn payload_order() -> Seq<int> {
    seq![10, 8, 9, 0, 3, 12, 6, 7, 1, 11, 2, 14, 13, 5, 4]
}

/// The canonical payload of an event: its fields as `name=value` in
/// ascending order, one per line.
pub open spec fn payload_text(
    eid: Seq<char>,
    parents: Seq<Seq<char>>,
    region_id: Seq<char>,
    entity_id: Seq<char>,
    v_before: Seq<u128>,
    v_after: Seq<u128>,
    operation: Seq<char>,
    params: Seq<char>,
    auth_ratio: Seq<char>,
    certified: bool,
    actor_pk: Seq<char>,
    proof: Seq<char>,
    logical_clock: u64,
    timestamp: u64,
    signature: Seq<char>,
) -> Seq<char> {
    let parts = payload_parts(eid, parents, region_id, entity_id, v_before, v_after, operation, params,
        auth_ratio, certified, actor_pk, proof, logical_clock, timestamp, signature);
    join(payload_order().map_values(|k: int| parts[k]), "\n"@)
}

fn field(name: &str, value: &str) -> (r: String)
    ensures
        r@ == name@ + value@,
{
    let mut out = owned(name);
    push_str(&mut out, value);
    out
}

fn u128_text(n: u128) -> (r: String)
    ensures
        r@ == dec(n as nat),
{
    crate::text::u128_to_string(n)
}

/// The canonical payload of an event.
pub fn canonical_event_payload(
    eid: &str,
    parent_hashes: &[String],
    region_id: &str,
    entity_id: &str,
    v_before: &[u128],
    v_after: &[u128],
    operation: &str,
    params: &str,
    auth_ratio: &str,
    certified: bool,
    actor_pk: &str,
    proof: &str,
    logical_clock: u64,
    timestamp: u64,
    signature: &str,
) -> (r: String)
    ensures
        r@ == payload_text(eid@, views(parent_hashes@), region_id@, entity_id@, v_before@, v_after@, operation@,
            params@, auth_ratio@, certified, actor_pk@, proof@, logical_clock, timestamp, signature@),
{
    let parents = canonical_join(parent_hashes);
    let vb = vector_to_string(v_before);
    let va = vector_to_string(v_after);
    let mut parts: Vec<String> = Vec::new();
    parts.push(field("actor_pk=", actor_pk));
    parts.push(field("auth_ratio=", auth_ratio));
    parts.push(field("certified=", if certified { "true" } else { "false" }));
    parts.push(field("eid=", eid));
    parts.push(field("entity_id=", entity_id));
    let clock = u128_text(logical_clock as u128);
    parts.push(field("logical_clock=", clock.as_str()));
    parts.push(field("operation=", operation));
    parts.push(field("params=", params));
    parts.push(field("parents=", parents.as_str()));
    parts.push(field("proof=", proof));
    parts.push(field("region_id=", region_id));
    parts.push(field("signature=", signature));
    let ts = u128_text(timestamp as u128);
    parts.push(field("timestamp=", ts.as_str()));
    parts.push(field("v_after=", va.as_str()));
    parts.push(field("v_before=", vb.as_str()));
    let mut out = String::new();
    crate::text::push_join(&mut out, &parts, "\n");
    proof {
        let ps = payload_parts(eid@, views(parent_hashes@), region_id@, entity_id@, v_before@, v_after@,
            operation@, params@, auth_ratio@, certified, actor_pk@, proof@, logical_clock, timestamp, signature@);
        let want = payload_order().map_values(|k: int| ps[k]);
        assert(parts@.len() == 15);
        assert(want.len() == 15);
        assert(parts@[0]@ == want[0]);
        assert(parts@[1]@ == want[1]);
        assert(parts@[2]@ == want[2]);
        assert(parts@[3]@ == want[3]);
        assert(parts@[4]@ == want[4]);
        assert(parts@[5]@ == want[5]);
        assert(parts@[6]@ == want[6]);
        assert(parts@[7]@ == want[7]);
        assert(parts@[8]@ == want[8]);
        assert(parts@[9]@ == want[9]);
        assert(parts@[10]@ == want[10]);
        assert(parts@[11]@ == want[11]);
        assert(parts@[12]@ == want[12]);
        assert(parts@[13]@ == want[13]);
        assert(parts@[14]@ == want[14]);
        assert(views(parts@) =~= want);
    }
    out
}

/// What `Display` writes for an event.
pub open spec fn event_text(e: EventView) -> Seq<char> {
    "Event("@ + e.eid + ", op="@ + e.operation + ", entity="@ + e.entity_id + ", hash="@ + e.event_hash + ")"@
}

impl Event {
    /// The one-line description of the event (what `Display` would write).
    pub fn message(&self) -> (r: String)
        ensures
            r@ == event_text(self@),
    {
        let mut out = String::new();
        push_str(&mut out, "Event(");
        push_str(&mut out, self.eid.as_str());
        push_str(&mut out, ", op=");
        push_str(&mut out, self.operation.as_str());
        push_str(&mut out, ", entity=");
        push_str(&mut out, self.entity_id.as_str());
        push_str(&mut out, ", hash=");
        push_str(&mut out, self.event_hash.as_str());
        push_str(&mut out, ")");
        out
    }
}

} // verus!
verus! {

/// Two texts that agree up to position `k` and differ there, the first
/// with the smaller character, stay in that order whatever follows them.
proof fn lemma_seq_lt_at(p: Seq<char>, q: Seq<char>, x: Seq<char>, y: Seq<char>, k: int)
    requires
        0 <= k < p.len(),
        k < q.len(),
        forall|j: int| 0 <= j < k ==> p[j] == q[j],
        (p[k] as int) < (q[k] as int),
    ensures
        crate::text::seq_lt(p + x, q + y),
    decreases k,
{
    assert((p + x)[0] == p[0]);
    assert((q + y)[0] == q[0]);
    if k > 0 {
        assert(p[0] == q[0]);
        assert forall|j: int| 0 <= j < k - 1 implies p.drop_first()[j] == q.drop_first()[j] by {
            assert(p[j + 1] == q[j + 1]);
        }
        lemma_seq_lt_at(p.drop_first(), q.drop_first(), x, y, k - 1);
        assert((p + x).drop_first() =~= p.drop_first() + x);
        assert((q + y).drop_first() =~= q.drop_first() + y);
    }
}

/// `payload_order` sorts the payload parts: whatever the fields hold, each
/// part in that order comes before the next, as their field names decide.
pub proof fn law_payload_order_sorted(
    eid: Seq<char>,
    parents: Seq<Seq<char>>,
    region_id: Seq<char>,
    entity_id: Seq<char>,
    v_before: Seq<u128>,
    v_after: Seq<u128>,
    operation: Seq<char>,
    params: Seq<char>,
    auth_ratio: Seq<char>,
    certified: bool,
    actor_pk: Seq<char>,
    proof: Seq<char>,
    logical_clock: u64,
    timestamp: u64,
    signature: Seq<char>,
)
    ensures
        ({
            let parts = payload_parts(eid, parents, region_id, entity_id, v_before, v_after, operation, params,
                auth_ratio, certified, actor_pk, proof, logical_clock, timestamp, signature);
            let sorted = payload_order().map_values(|k: int| parts[k]);
            forall|i: int| 0 <= i < 14 ==> crate::text::seq_lt(#[trigger] sorted[i], sorted[i + 1])
        }),
{
    reveal_strlit("actor_pk=");
    reveal_strlit("auth_ratio=");
    reveal_strlit("certified=");
    reveal_strlit("eid=");
    reveal_strlit("entity_id=");
    reveal_strlit("logical_clock=");
    reveal_strlit("operation=");
    reveal_strlit("params=");
    reveal_strlit("parents=");
    reveal_strlit("proof=");
    reveal_strlit("region_id=");
    reveal_strlit("signature=");
    reveal_strlit("timestamp=");
    reveal_strlit("v_after=");
    reveal_strlit("v_before=");
    let pj = join(parents, "|"@);
    let vb = vec_text(v_before);
    let va = vec_text(v_after);
    let ct = bool_text(certified);
    let lc = dec(logical_clock as nat);
    let ts = dec(timestamp as nat);
    lemma_seq_lt_at("actor_pk="@, "auth_ratio="@, actor_pk, auth_ratio, 1);
    lemma_seq_lt_at("auth_ratio="@, "certified="@, auth_ratio, ct, 0);
    lemma_seq_lt_at("certified="@, "eid="@, ct, eid, 0);
    lemma_seq_lt_at("eid="@, "entity_id="@, eid, entity_id, 1);
    lemma_seq_lt_at("entity_id="@, "logical_clock="@, entity_id, lc, 0);
    lemma_seq_lt_at("logical_clock="@, "operation="@, lc, operation, 0);
    lemma_seq_lt_at("operation="@, "params="@, operation, params, 0);
    lemma_seq_lt_at("params="@, "parents="@, params, pj, 3);
    lemma_seq_lt_at("parents="@, "proof="@, pj, proof, 1);
    lemma_seq_lt_at("proof="@, "region_id="@, proof, region_id, 0);
    lemma_seq_lt_at("region_id="@, "signature="@, region_id, signature, 0);
    lemma_seq_lt_at("signature="@, "timestamp="@, signature, ts, 0);
    lemma_seq_lt_at("timestamp="@, "v_after="@, ts, va, 0);
    lemma_seq_lt_at("v_after="@, "v_before="@, va, vb, 2);
}

} // verus!
