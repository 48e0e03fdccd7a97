//! Runtime values and contexts, with their `Debug` forms.
use vstd::prelude::*;
use crate::ast::{VectorType, vector_type_name};
use crate::strmap::{StrMap, sorted_insert};
use crate::text::{dec, debug_str, views, push_str, push_dec, push_debug_str};

verus! {

#[derive(Debug, PartialEq, Eq)]
pub enum Value {
    Null,
    Bool(bool),
    Int(u128),
    String(String),
    Path(Vec<String>),
    Dict(StrMap<Value>),
    Vector(Vec<u128>),
    Type(VectorType),
}

pub enum ValueView {
    Null,
    Bool(bool),
    Int(u128),
    String(Seq<char>),
    Path(Seq<Seq<char>>),
    Dict(Seq<(Seq<char>, ValueView)>),
    Vector(Seq<u128>),
    Type(VectorType),
}

pub open spec fn value_view(v: Value) -> ValueView
    decreases v,
{
    match v {
        Value::Null => ValueView::Null,
        Value::Bool(b) => ValueView::Bool(b),
        Value::Int(i) => ValueView::Int(i),
        Value::String(s) => ValueView::String(s@),
        Value::Path(p) => ValueView::Path(views(p@)),
        Value::Dict(m) => ValueView::Dict(entries_view(m.keys@, m.vals@)),
        Value::Vector(c) => ValueView::Vector(c@),
        Value::Type(t) => ValueView::Type(t),
    }
}

pub open spec fn entries_view(ks: Seq<String>, vs: Seq<Value>) -> Seq<(Seq<char>, ValueView)>
    decreases vs,
{
    if vs.len() == 0 || ks.len() == 0 {
        Seq::empty()
    } else {
        entries_view(ks.subrange(0, ks.len() - 1), vs.subrange(0, vs.len() - 1)).push(
            (ks[ks.len() - 1]@, value_view(vs[vs.len() - 1])),
        )
    }
}

impl View for Value {
    type V = ValueView;

    open spec fn view(&self) -> ValueView {
        value_view(*self)
    }
}

} // verus!
verus! {

pub proof fn lemma_entries_view(ks: Seq<String>, vs: Seq<Value>)
    requires
        ks.len() == vs.len(),
    ensures
        entries_view(ks, vs).len() == ks.len(),
        forall|i: int| 0 <= i < ks.len() ==> #[trigger] entries_view(ks, vs)[i] == (ks[i]@, vs[i]@),
    decreases vs.len(),
{
    if vs.len() > 0 {
        lemma_entries_view(ks.subrange(0, ks.len() - 1), vs.subrange(0, vs.len() - 1));
    }
}

/// The entries of a map of values, each value by its view.
pub proof fn lemma_entries_view_of_map(m: StrMap<Value>)
    requires
        m.wf(),
    ensures
        entries_view(m.keys@, m.vals@) == crate::strmap::view_entries(m.entries()),
{
    lemma_entries_view(m.keys@, m.vals@);
    assert(entries_view(m.keys@, m.vals@) =~= crate::strmap::view_entries(m.entries()));
}

/// `Debug` of a vector type: its variant name.
pub open spec fn vector_type_debug(t: VectorType) -> Seq<char> {
    match t {
        VectorType::Position => "Position"@,
        VectorType::Free => "Free"@,
        VectorType::Bound => "Bound"@,
        VectorType::Unit => "Unit"@,
        VectorType::Zero => "Zero"@,
        VectorType::Spatial => "Spatial"@,
    }
}

/// `Debug` of a list of numbers, without the brackets.
pub open spec fn nums_debug_items(c: Seq<u128>) -> Seq<char>
    decreases c.len(),
{
    if c.len() == 0 {
        Seq::empty()
    } else {
        let sep = if c.len() > 1 { ", "@ } else { Seq::empty() };
        nums_debug_items(c.drop_last()) + sep + dec(c.last() as nat)
    }
}

pub open spec fn dict_debug_items(es: Seq<(Seq<char>, ValueView)>) -> Seq<char>
    decreases es,
{
    if es.len() == 0 {
        Seq::empty()
    } else {
        let prefix = es.subrange(0, es.len() - 1);
        let last = es[es.len() - 1];
        let sep = if es.len() > 1 { ", "@ } else { Seq::empty() };
        dict_debug_items(prefix) + sep + debug_str(last.0) + ": "@ + value_debug(last.1)
    }
}

/// `Debug` of a value (a map written as `Map({..})`).
pub open spec fn value_debug(v: ValueView) -> Seq<char>
    decreases v,
{
    match v {
        ValueView::Null => "Null"@,
        ValueView::Bool(b) => if b { "Bool(true)"@ } else { "Bool(false)"@ },
        ValueView::Int(i) => "Int("@ + dec(i as nat) + ")"@,
        ValueView::String(s) => "String("@ + debug_str(s) + ")"@,
        ValueView::Path(p) => "Path(["@ + crate::ast::strs_debug_items(p) + "])"@,
        ValueView::Dict(es) => "Map({"@ + dict_debug_items(es) + "})"@,
        ValueView::Vector(c) => "Vector(["@ + nums_debug_items(c) + "])"@,
        ValueView::Type(t) => "Type("@ + vector_type_debug(t) + ")"@,
    }
}

fn push_vector_type_debug(out: &mut String, t: VectorType)
    ensures
        final(out)@ == old(out)@ + vector_type_debug(t),
{
    match t {
        VectorType::Position => push_str(out, "Position"),
        VectorType::Free => push_str(out, "Free"),
        VectorType::Bound => push_str(out, "Bound"),
        VectorType::Unit => push_str(out, "Unit"),
        VectorType::Zero => push_str(out, "Zero"),
        VectorType::Spatial => push_str(out, "Spatial"),
    }
}

/// Appends the numbers separated by `, `.
pub fn push_nums(out: &mut String, c: &Vec<u128>)
    ensures
        final(out)@ == old(out)@ + nums_debug_items(c@),
{
    let ghost start = out@;
    let mut i: usize = 0;
    while i < c.len()
        invariant
            i <= c.len(),
            out@ == start + nums_debug_items(c@.take(i as int)),
        decreases c.len() - i,
    {
        if i > 0 {
            push_str(out, ", ");
        }
        push_dec(out, c[i]);
        assert(c@.take(i + 1).drop_last() == c@.take(i as int));
        i = i + 1;
    }
    assert(c@.take(c.len() as int) == c@);
}

/// Appends `Debug` of a value.
pub fn push_value_debug(out: &mut String, v: &Value)
    ensures
        final(out)@ == old(out)@ + value_debug(v@),
    decreases v,
{
    match v {
        Value::Null => push_str(out, "Null"),
        Value::Bool(b) => {
            if *b {
                push_str(out, "Bool(true)");
            } else {
                push_str(out, "Bool(false)");
            }
        },
        Value::Int(i) => {
            push_str(out, "Int(");
            push_dec(out, *i);
            push_str(out, ")");
        },
        Value::String(s) => {
            push_str(out, "String(");
            push_debug_str(out, s.as_str());
            push_str(out, ")");
        },
        Value::Path(p) => {
            push_str(out, "Path([");
            crate::ast::push_strs_debug(out, p);
            push_str(out, "])");
        },
        Value::Dict(m) => {
            push_str(out, "Map({");
            let n = if m.keys.len() < m.vals.len() { m.keys.len() } else { m.vals.len() };
            let dk = m.keys.len() - n;
            let dv = m.vals.len() - n;
            let ghost es = entries_view(m.keys@, m.vals@);
            let ghost start = out@;
            proof {
                lemma_entries_len(m.keys@, m.vals@);
                lemma_entries_at(m.keys@, m.vals@);
            }
            let mut i: usize = 0;
            while i < n
                invariant
                    i <= n,
                    n + dk == m.keys.len(),
                    n + dv == m.vals.len(),
                    *v is Dict,
                    (*v)->Dict_0 == *m,
                    es == entries_view(m.keys@, m.vals@),
                    es.len() == n,
                    forall|j: int| 0 <= j < n ==> #[trigger] es[j] == (m.keys@[j + dk]@, m.vals@[j + dv]@),
                    out@ == start + dict_debug_items(es.take(i as int)),
                decreases n - i,
            {
                if i > 0 {
                    push_str(out, ", ");
                }
                push_debug_str(out, m.keys[dk + i].as_str());
                push_str(out, ": ");
                proof {
                    let x = m.vals@[dv + i];
                    assert(decreases_to!(*v => (*v)->Dict_0));
                    assert(decreases_to!((*v)->Dict_0 => m.vals));
                    assert(decreases_to!(m.vals => m.vals@));
                    assert(decreases_to!(m.vals@ => x));
                }
                push_value_debug(out, &m.vals[dv + i]);
                proof {
                    assert(es.take(i + 1).subrange(0, i as int) == es.take(i as int));
                }
                i = i + 1;
            }
            assert(es.take(n as int) == es);
            push_str(out, "})");
        },
        Value::Vector(c) => {
            push_str(out, "Vector([");
            push_nums(out, c);
            push_str(out, "])");
        },
        Value::Type(t) => {
            push_str(out, "Type(");
            push_vector_type_debug(out, *t);
            push_str(out, ")");
        },
    }
}

proof fn lemma_entries_len(ks: Seq<String>, vs: Seq<Value>)
    ensures
        entries_view(ks, vs).len() == if ks.len() < vs.len() { ks.len() } else { vs.len() },
    decreases vs.len(),
{
    if vs.len() > 0 && ks.len() > 0 {
        lemma_entries_len(ks.subrange(0, ks.len() - 1), vs.subrange(0, vs.len() - 1));
    }
}

proof fn lemma_entries_at(ks: Seq<String>, vs: Seq<Value>)
    ensures
        forall|i: int| 0 <= i < entries_view(ks, vs).len() ==> #[trigger] entries_view(ks, vs)[i]
            == (ks[i + (ks.len() - entries_view(ks, vs).len())]@, vs[i + (vs.len() - entries_view(ks, vs).len())]@),
    decreases vs.len(),
{
    lemma_entries_len(ks, vs);
    if vs.len() > 0 && ks.len() > 0 {
        lemma_entries_at(ks.subrange(0, ks.len() - 1), vs.subrange(0, vs.len() - 1));
        lemma_entries_len(ks.subrange(0, ks.len() - 1), vs.subrange(0, vs.len() - 1));
    }
}

} // verus!
verus! {

impl Value {
    pub fn as_int(&self) -> (r: Option<u128>)
        ensures
            r == match *self {
                Value::Int(v) => Some(v),
                _ => None::<u128>,
            },
    {
        match self {
            Value::Int(v) => Some(*v),
            _ => None,
        }
    }

    pub fn as_string(&self) -> (r: Option<&str>)
        ensures
            match *self {
                Value::String(v) => r matches Some(s) && s@ == v@,
                _ => r is None,
            },
    {
        match self {
            Value::String(v) => Some(v.as_str()),
            _ => None,
        }
    }
}

#[derive(Debug, PartialEq, Eq)]
pub struct Context {
    pub fields: StrMap<Value>,
}

impl View for Context {
    type V = Seq<(Seq<char>, ValueView)>;

    /// The fields in key order, values by their views.
    open spec fn view(&self) -> Seq<(Seq<char>, ValueView)> {
        entries_view(self.fields.keys@, self.fields.vals@)
    }
}

impl Context {
    pub fn new() -> (r: Self)
        ensures
            r.fields.wf(),
            r@ == Seq::<(Seq<char>, ValueView)>::empty(),
    {
        Context { fields: StrMap::new() }
    }

    /// The context with `value` under `key` (replacing what was there).
    pub fn with(self, key: &str, value: Value) -> (r: Self)
        requires
            self.fields.wf(),
        ensures
            r.fields.wf(),
            r@ == sorted_insert(self@, key@, value@),
    {
        let mut this = self;
        let ghost before = this.fields.entries();
        proof {
            lemma_entries_view_of_map(this.fields);
        }
        let ghost vv = value@;
        this.fields.insert(crate::text::owned(key), value);
        proof {
            lemma_entries_view_of_map(this.fields);
            crate::strmap::lemma_view_entries_insert(before, key@, value);
        }
        this
    }

    /// The value under `key`, if any.
    pub fn get(&self, key: &str) -> (r: Option<&Value>)
        requires
            self.fields.wf(),
        ensures
            match r {
                Some(v) => self.fields.map_view().contains_key(key@) && *v == self.fields.map_view()[key@],
                None => !self.fields.map_view().contains_key(key@),
            },
    {
        self.fields.get(key)
    }
}

} // verus!
