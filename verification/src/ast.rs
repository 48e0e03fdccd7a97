//! The abstract syntax tree, its views (the same tree with texts as
//! character sequences), and the text and `Debug` forms of expressions.
use vstd::prelude::*;
use crate::text::{dec, debug_str, str_eq, push_str, push_dec, push_char, push_debug_str, views};
use crate::strmap::{StrMap, sorted_insert};

verus! {

broadcast use vstd::string::group_string_axioms;

#[derive(Debug, Clone, PartialEq, Eq)]
pub struct Program {
    pub statements: Vec<Statement>,
}

#[derive(Debug, Clone, PartialEq, Eq)]
pub enum Statement {
    VectorDecl(VectorDecl),
    WalletDecl(WalletDecl),
    Certify(CertifyStmt),
    Transfer(TransferStmt),
    Drain(DrainStmt),
    Project(ProjectStmt),
    Reconstruct(ReconstructStmt),
    Query(QueryStmt),
    Record(RecordStmt),
    Contract(ContractDecl),
}

#[derive(Debug, Clone, PartialEq, Eq)]
pub struct VectorDecl {
    pub name: String,
    pub vector_type: VectorType,
    pub components: Vec<u128>,
}

#[derive(Debug, Clone, PartialEq, Eq)]
pub struct WalletDecl {
    pub name: String,
    pub public_key: String,
}

#[derive(Debug, Clone, PartialEq, Eq)]
pub struct CertifyStmt {
    pub target: String,
    pub context: ContextExpr,
}

#[derive(Debug, Clone, PartialEq, Eq)]
pub struct TransferStmt {
    pub source: String,
    pub destination: String,
    pub amount: Expr,
    pub drain: Option<Expr>,
    pub policy: Option<Expr>,
}

#[derive(Debug, Clone, PartialEq, Eq)]
pub struct DrainStmt {
    pub target: String,
    pub amount: Expr,
}

#[derive(Debug, Clone, PartialEq, Eq)]
pub struct ProjectStmt {
    pub source: String,
    pub environment: String,
    pub amount: Expr,
    pub policy: Option<Expr>,
}

#[derive(Debug, Clone, PartialEq, Eq)]
pub struct ReconstructStmt {
    pub target: String,
    pub projection_id: String,
}

#[derive(Debug, Clone, PartialEq, Eq)]
pub struct QueryStmt {
    pub expr: Expr,
}

#[derive(Debug, Clone, PartialEq, Eq)]
pub struct RecordStmt {
    pub expr: Expr,
}

#[derive(Debug, Clone, PartialEq, Eq)]
pub struct ContractDecl {
    pub name: String,
    pub actions: Vec<ContractAction>,
}

#[derive(Debug, Clone, PartialEq, Eq)]
pub struct ContractAction {
    pub name: String,
    pub args: Vec<NamedArg>,
}

#[derive(Debug, PartialEq, Eq)]
pub struct NamedArg {
    pub name: Option<String>,
    pub value: Expr,
}

#[derive(Debug, PartialEq, Eq)]
pub enum Expr {
    Integer(u128),
    String(String),
    Ident(String),
    Path(Vec<String>),
    Call { callee: String, args: Vec<NamedArg> },
    Group(Box<Expr>),
}

#[derive(Debug, Clone, PartialEq, Eq)]
pub struct ContextExpr {
    pub args: Vec<NamedArg>,
}

#[derive(Debug, Clone, Copy, PartialEq, Eq, Structural)]
pub enum VectorType {
    Position,
    Free,
    Bound,
    Unit,
    Zero,
    Spatial,
}

// ---------------------------------------------------------------------------
// Views.

pub enum ExprView {
    Integer(u128),
    String(Seq<char>),
    Ident(Seq<char>),
    Path(Seq<Seq<char>>),
    Call { callee: Seq<char>, args: Seq<NamedArgView> },
    Group(Box<ExprView>),
}

pub struct NamedArgView {
    pub name: Option<Seq<char>>,
    pub value: ExprView,
}

pub open spec fn opt_view(o: Option<String>) -> Option<Seq<char>> {
    match o {
        Some(s) => Some(s@),
        None => None,
    }
}

pub open spec fn expr_view(e: Expr) -> ExprView
    decreases e,
{
    match e {
        Expr::Integer(v) => ExprView::Integer(v),
        Expr::String(v) => ExprView::String(v@),
        Expr::Ident(v) => ExprView::Ident(v@),
        Expr::Path(parts) => ExprView::Path(views(parts@)),
        Expr::Call { callee, args } => ExprView::Call { callee: callee@, args: args_view(args@) },
        Expr::Group(inner) => ExprView::Group(Box::new(expr_view(*inner))),
    }
}

pub open spec fn args_view(args: Seq<NamedArg>) -> Seq<NamedArgView>
    decreases args,
{
    if args.len() == 0 {
        Seq::empty()
    } else {
        let last = args[args.len() - 1];
        args_view(args.subrange(0, args.len() - 1)).push(
            NamedArgView { name: opt_view(last.name), value: expr_view(last.value) },
        )
    }
}

impl View for Expr {
    type V = ExprView;

    open spec fn view(&self) -> ExprView {
        expr_view(*self)
    }
}

impl View for NamedArg {
    type V = NamedArgView;

    open spec fn view(&self) -> NamedArgView {
        NamedArgView { name: opt_view(self.name), value: self.value@ }
    }
}

pub proof fn lemma_args_view(args: Seq<NamedArg>)
    ensures
        args_view(args).len() == args.len(),
        forall|i: int| 0 <= i < args.len() ==> #[trigger] args_view(args)[i] == args[i]@,
    decreases args.len(),
{
    if args.len() > 0 {
        lemma_args_view(args.subrange(0, args.len() - 1));
    }
}

pub proof fn lemma_args_view_take(args: Seq<NamedArg>, i: int)
    requires
        0 <= i <= args.len(),
    ensures
        args_view(args.take(i)) == args_view(args).take(i),
{
    lemma_args_view(args);
    lemma_args_view(args.take(i));
    assert(args_view(args.take(i)) =~= args_view(args).take(i));
}

pub open spec fn opt_expr_view(o: Option<Expr>) -> Option<ExprView> {
    match o {
        Some(e) => Some(e@),
        None => None,
    }
}

pub struct ContractActionView {
    pub name: Seq<char>,
    pub args: Seq<NamedArgView>,
}

impl View for ContractAction {
    type V = ContractActionView;

    open spec fn view(&self) -> ContractActionView {
        ContractActionView { name: self.name@, args: args_view(self.args@) }
    }
}

pub enum StatementView {
    VectorDecl { name: Seq<char>, vector_type: VectorType, components: Seq<u128> },
    WalletDecl { name: Seq<char>, public_key: Seq<char> },
    Certify { target: Seq<char>, context: Seq<NamedArgView> },
    Transfer {
        source: Seq<char>,
        destination: Seq<char>,
        amount: ExprView,
        drain: Option<ExprView>,
        policy: Option<ExprView>,
    },
    Drain { target: Seq<char>, amount: ExprView },
    Project { source: Seq<char>, environment: Seq<char>, amount: ExprView, policy: Option<ExprView> },
    Reconstruct { target: Seq<char>, projection_id: Seq<char> },
    Query { expr: ExprView },
    Record { expr: ExprView },
    Contract { name: Seq<char>, actions: Seq<ContractActionView> },
}

impl View for Statement {
    type V = StatementView;

    open spec fn view(&self) -> StatementView {
        match *self {
            Statement::VectorDecl(v) => StatementView::VectorDecl {
                name: v.name@,
                vector_type: v.vector_type,
                components: v.components@,
            },
            Statement::WalletDecl(w) => StatementView::WalletDecl { name: w.name@, public_key: w.public_key@ },
            Statement::Certify(c) => StatementView::Certify {
                target: c.target@,
                context: args_view(c.context.args@),
            },
            Statement::Transfer(t) => StatementView::Transfer {
                source: t.source@,
                destination: t.destination@,
                amount: t.amount@,
                drain: opt_expr_view(t.drain),
                policy: opt_expr_view(t.policy),
            },
            Statement::Drain(d) => StatementView::Drain { target: d.target@, amount: d.amount@ },
            Statement::Project(p) => StatementView::Project {
                source: p.source@,
                environment: p.environment@,
                amount: p.amount@,
                policy: opt_expr_view(p.policy),
            },
            Statement::Reconstruct(r) => StatementView::Reconstruct {
                target: r.target@,
                projection_id: r.projection_id@,
            },
            Statement::Query(q) => StatementView::Query { expr: q.expr@ },
            Statement::Record(r) => StatementView::Record { expr: r.expr@ },
            Statement::Contract(c) => StatementView::Contract {
                name: c.name@,
                actions: c.actions@.map_values(|a: ContractAction| a@),
            },
        }
    }
}

impl View for Program {
    type V = Seq<StatementView>;

    open spec fn view(&self) -> Seq<StatementView> {
        self.statements@.map_values(|s: Statement| s@)
    }
}

// ---------------------------------------------------------------------------
// Text of expressions.

/// An argument as text: `name=value`, or the value alone.
pub open spec fn arg_text(a: NamedArgView) -> Seq<char>
    decreases a,
{
    match a.name {
        Some(n) => n + "="@ + expr_text(a.value),
        None => expr_text(a.value),
    }
}

/// The arguments as text, separated by `, `.
pub open spec fn args_text(args: Seq<NamedArgView>) -> Seq<char>
    decreases args,
{
    if args.len() == 0 {
        Seq::empty()
    } else {
        let prefix = args.subrange(0, args.len() - 1);
        let last = args[args.len() - 1];
        let sep = if args.len() > 1 { ", "@ } else { Seq::empty() };
        args_text(prefix) + sep + arg_text(last)
    }
}

/// The text of an expression: numbers in decimal, strings and identifiers as
/// they are, paths joined by `.`, calls as `callee(args)`, groups without
/// their parentheses.
pub open spec fn expr_text(e: ExprView) -> Seq<char>
    decreases e,
{
    match e {
        ExprView::Integer(v) => dec(v as nat),
        ExprView::String(v) => v,
        ExprView::Ident(v) => v,
        ExprView::Path(parts) => crate::text::join(parts, "."@),
        ExprView::Call { callee, args } => callee + "("@ + args_text(args) + ")"@,
        ExprView::Group(inner) => expr_text(*inner),
    }
}

/// Appends the text of an argument.
pub fn push_arg(out: &mut String, a: &NamedArg)
    ensures
        final(out)@ == old(out)@ + arg_text(a@),
    decreases a,
{
    match &a.name {
        Some(n) => {
            push_str(out, n.as_str());
            push_str(out, "=");
        },
        None => {},
    }
    proof {
        assert(decreases_to!(*a => a.value));
    }
    push_expr(out, &a.value);
}

/// Appends the text of arguments, separated by `, `.
pub fn push_args(out: &mut String, args: &Vec<NamedArg>)
    ensures
        final(out)@ == old(out)@ + args_text(args_view(args@)),
    decreases args,
{
    let ghost start = out@;
    let mut i: usize = 0;
    proof {
        lemma_args_view(args@);
    }
    while i < args.len()
        invariant
            i <= args.len(),
            args_view(args@).len() == args.len(),
            forall|j: int| 0 <= j < args.len() ==> #[trigger] args_view(args@)[j] == args@[j]@,
            out@ == start + args_text(args_view(args@).take(i as int)),
        decreases args.len() - i,
    {
        if i > 0 {
            push_str(out, ", ");
        }
        proof {
            let a = args@[i as int];
            assert(decreases_to!(*args => args@));
            assert(decreases_to!(args@ => a));
        }
        push_arg(out, &args[i]);
        proof {
            let s = args_view(args@).take(i + 1);
            assert(s.subrange(0, i as int) == args_view(args@).take(i as int));
        }
        i = i + 1;
    }
    assert(args_view(args@).take(args.len() as int) == args_view(args@));
}

/// Appends the text of an expression.
pub fn push_expr(out: &mut String, e: &Expr)
    ensures
        final(out)@ == old(out)@ + expr_text(e@),
    decreases e,
{
    match e {
        Expr::Integer(v) => push_dec(out, *v),
        Expr::String(v) => push_str(out, v.as_str()),
        Expr::Ident(v) => push_str(out, v.as_str()),
        Expr::Path(parts) => crate::text::push_join(out, parts, "."),
        Expr::Call { callee, args } => {
            push_str(out, callee.as_str());
            push_str(out, "(");
            proof {
                assert(decreases_to!(*e => (*e)->args));
            }
            push_args(out, args);
            push_str(out, ")");
        },
        Expr::Group(inner) => push_expr(out, inner),
    }
}

// ---------------------------------------------------------------------------
// `Debug` of expressions.

pub open spec fn opt_str_debug(o: Option<Seq<char>>) -> Seq<char> {
    match o {
        Some(s) => "Some("@ + debug_str(s) + ")"@,
        None => "None"@,
    }
}

/// `Debug` of a list of strings: `["a", "b"]`.
pub open spec fn strs_debug_items(parts: Seq<Seq<char>>) -> Seq<char>
    decreases parts.len(),
{
    if parts.len() == 0 {
        Seq::empty()
    } else {
        let sep = if parts.len() > 1 { ", "@ } else { Seq::empty() };
        strs_debug_items(parts.drop_last()) + sep + debug_str(parts.last())
    }
}

pub open spec fn arg_debug(a: NamedArgView) -> Seq<char>
    decreases a,
{
    "NamedArg { name: "@ + opt_str_debug(a.name) + ", value: "@ + expr_debug(a.value) + " }"@
}

pub open spec fn args_debug_items(args: Seq<NamedArgView>) -> Seq<char>
    decreases args,
{
    if args.len() == 0 {
        Seq::empty()
    } else {
        let prefix = args.subrange(0, args.len() - 1);
        let last = args[args.len() - 1];
        let sep = if args.len() > 1 { ", "@ } else { Seq::empty() };
        args_debug_items(prefix) + sep + arg_debug(last)
    }
}

/// `Debug` of an expression.
pub open spec fn expr_debug(e: ExprView) -> Seq<char>
    decreases e,
{
    match e {
        ExprView::Integer(v) => "Integer("@ + dec(v as nat) + ")"@,
        ExprView::String(v) => "String("@ + debug_str(v) + ")"@,
        ExprView::Ident(v) => "Ident("@ + debug_str(v) + ")"@,
        ExprView::Path(parts) => "Path(["@ + strs_debug_items(parts) + "])"@,
        ExprView::Call { callee, args } => "Call { callee: "@ + debug_str(callee) + ", args: ["@
            + args_debug_items(args) + "] }"@,
        ExprView::Group(inner) => "Group("@ + expr_debug(*inner) + ")"@,
    }
}

pub fn push_strs_debug(out: &mut String, parts: &Vec<String>)
    ensures
        final(out)@ == old(out)@ + strs_debug_items(views(parts@)),
{
    let ghost start = out@;
    let mut i: usize = 0;
    while i < parts.len()
        invariant
            i <= parts.len(),
            out@ == start + strs_debug_items(views(parts@).take(i as int)),
        decreases parts.len() - i,
    {
        if i > 0 {
            push_str(out, ", ");
        }
        push_debug_str(out, parts[i].as_str());
        assert(views(parts@).take(i + 1).drop_last() == views(parts@).take(i as int));
        i = i + 1;
    }
    assert(views(parts@).take(parts.len() as int) == views(parts@));
}

fn push_arg_debug(out: &mut String, a: &NamedArg)
    ensures
        final(out)@ == old(out)@ + arg_debug(a@),
    decreases a,
{
    push_str(out, "NamedArg { name: ");
    match &a.name {
        Some(n) => {
            push_str(out, "Some(");
            push_debug_str(out, n.as_str());
            push_str(out, ")");
        },
        None => push_str(out, "None"),
    }
    push_str(out, ", value: ");
    proof {
        assert(decreases_to!(*a => a.value));
    }
    push_expr_debug(out, &a.value);
    push_str(out, " }");
}

fn push_args_debug(out: &mut String, args: &Vec<NamedArg>)
    ensures
        final(out)@ == old(out)@ + args_debug_items(args_view(args@)),
    decreases args,
{
    let ghost start = out@;
    let mut i: usize = 0;
    proof {
        lemma_args_view(args@);
    }
    while i < args.len()
        invariant
            i <= args.len(),
            args_view(args@).len() == args.len(),
            forall|j: int| 0 <= j < args.len() ==> #[trigger] args_view(args@)[j] == args@[j]@,
            out@ == start + args_debug_items(args_view(args@).take(i as int)),
        decreases args.len() - i,
    {
        if i > 0 {
            push_str(out, ", ");
        }
        proof {
            let a = args@[i as int];
            assert(decreases_to!(*args => args@));
            assert(decreases_to!(args@ => a));
        }
        push_arg_debug(out, &args[i]);
        proof {
            let s = args_view(args@).take(i + 1);
            assert(s.subrange(0, i as int) == args_view(args@).take(i as int));
        }
        i = i + 1;
    }
    assert(args_view(args@).take(args.len() as int) == args_view(args@));
}

/// Appends `Debug` of an expression.
pub fn push_expr_debug(out: &mut String, e: &Expr)
    ensures
        final(out)@ == old(out)@ + expr_debug(e@),
    decreases e,
{
    match e {
        Expr::Integer(v) => {
            push_str(out, "Integer(");
            push_dec(out, *v);
            push_str(out, ")");
        },
        Expr::String(v) => {
            push_str(out, "String(");
            push_debug_str(out, v.as_str());
            push_str(out, ")");
        },
        Expr::Ident(v) => {
            push_str(out, "Ident(");
            push_debug_str(out, v.as_str());
            push_str(out, ")");
        },
        Expr::Path(parts) => {
            push_str(out, "Path([");
            push_strs_debug(out, parts);
            push_str(out, "])");
        },
        Expr::Call { callee, args } => {
            push_str(out, "Call { callee: ");
            push_debug_str(out, callee.as_str());
            push_str(out, ", args: [");
            proof {
                assert(decreases_to!(*e => (*e)->args));
            }
            push_args_debug(out, args);
            push_str(out, "] }");
        },
        Expr::Group(inner) => {
            push_str(out, "Group(");
            push_expr_debug(out, inner);
            push_str(out, ")");
        },
    }
}

} // verus!

verus! {

impl Clone for NamedArg {
    fn clone(&self) -> (r: Self)
        ensures
            r@ == self@,
        decreases self,
    {
        proof {
            assert(decreases_to!(*self => self.value));
        }
        NamedArg { name: crate::text::copy_opt_string(&self.name), value: self.value.clone() }
    }
}

impl Clone for Expr {
    fn clone(&self) -> (r: Self)
        ensures
            r@ == self@,
        decreases self,
    {
        match self {
            Expr::Integer(v) => Expr::Integer(*v),
            Expr::String(v) => Expr::String(v.clone()),
            Expr::Ident(v) => Expr::Ident(v.clone()),
            Expr::Path(parts) => Expr::Path(crate::text::copy_strings(parts)),
            Expr::Call { callee, args } => {
                proof {
                    assert(decreases_to!(*self => (*self)->args));
                }
                Expr::Call { callee: callee.clone(), args: copy_args(args) }
            },
            Expr::Group(inner) => Expr::Group(Box::new((**inner).clone())),
        }
    }
}

/// A copy of a list of arguments, with the same view.
pub fn copy_args(args: &Vec<NamedArg>) -> (r: Vec<NamedArg>)
    ensures
        args_view(r@) == args_view(args@),
    decreases args,
{
    let mut r: Vec<NamedArg> = Vec::new();
    proof {
        lemma_args_view(args@);
    }
    for i in 0..args.len()
        invariant
            r.len() == i,
            forall|j: int| 0 <= j < i ==> #[trigger] r@[j]@ == args@[j]@,
    {
        proof {
            let a = args@[i as int];
            assert(decreases_to!(*args => args@));
            assert(decreases_to!(args@ => a));
        }
        r.push(args[i].clone());
    }
    proof {
        lemma_args_view(r@);
        assert(args_view(r@) =~= args_view(args@));
    }
    r
}

} // verus!
verus! {

/// The value of the first argument named `key`.
pub open spec fn ctx_lookup(args: Seq<NamedArgView>, key: Seq<char>) -> Option<ExprView>
    decreases args.len(),
{
    if args.len() == 0 {
        None
    } else if args[0].name == Some(key) {
        Some(args[0].value)
    } else {
        ctx_lookup(args.drop_first(), key)
    }
}

/// The named arguments as key-ordered entries; a later argument with the
/// same name replaces an earlier one.
pub open spec fn named_entries(args: Seq<NamedArgView>) -> Seq<(Seq<char>, ExprView)>
    decreases args.len(),
{
    if args.len() == 0 {
        Seq::empty()
    } else {
        let prev = named_entries(args.drop_last());
        match args.last().name {
            Some(n) => sorted_insert(prev, n, args.last().value),
            None => prev,
        }
    }
}

impl ContextExpr {
    pub fn new(args: Vec<NamedArg>) -> (r: Self)
        ensures
            r.args == args,
    {
        ContextExpr { args }
    }

    /// The value of the first argument named `key`.
    pub fn get(&self, key: &str) -> (r: Option<&Expr>)
        ensures
            match r {
                Some(e) => ctx_lookup(args_view(self.args@), key@) == Some(e@),
                None => ctx_lookup(args_view(self.args@), key@) is None,
            },
    {
        let ghost av = args_view(self.args@);
        proof {
            lemma_args_view(self.args@);
        }
        let mut i: usize = 0;
        assert(av.skip(0) =~= av);
        while i < self.args.len()
            invariant
                i <= self.args.len(),
                av == args_view(self.args@),
                av.len() == self.args.len(),
                forall|j: int| 0 <= j < self.args.len() ==> #[trigger] av[j] == self.args@[j]@,
                ctx_lookup(av, key@) == ctx_lookup(av.skip(i as int), key@),
            decreases self.args.len() - i,
        {
            let ghost rest = av.skip(i as int);
            assert(rest.len() > 0);
            assert(rest[0] == av[i as int]);
            assert(rest.drop_first() =~= av.skip(i + 1));
            match &self.args[i].name {
                Some(name) => {
                    if str_eq(name.as_str(), key) {
                        assert(self.args@[i as int].name == Some(*name));
                        assert(av[i as int].name == Some(key@));
                        assert(ctx_lookup(rest, key@) == Some(rest[0].value));
                        assert(rest[0].value == self.args@[i as int].value@);
                        assert(ctx_lookup(av, key@) == Some(self.args@[i as int].value@));
                        let v = &self.args[i].value;
                        assert(*v == self.args@[i as int].value);
                        assert(v@ == self.args@[i as int].value@);
                        return Some(v);
                    }
                },
                None => {},
            }
            i = i + 1;
        }
        None
    }

    /// The named arguments as a key-ordered map; a later argument with the
    /// same name replaces an earlier one.
    pub fn as_map(&self) -> (r: StrMap<Expr>)
        ensures
            r.wf(),
            crate::strmap::view_entries(r.entries()) == named_entries(args_view(self.args@)),
    {
        let ghost av = args_view(self.args@);
        proof {
            lemma_args_view(self.args@);
        }
        let mut out: StrMap<Expr> = StrMap::new();
        assert(crate::strmap::view_entries(out.entries()) =~= named_entries(av.take(0)));
        for i in 0..self.args.len()
            invariant
                out.wf(),
                av == args_view(self.args@),
                av.len() == self.args.len(),
                forall|j: int| 0 <= j < self.args.len() ==> #[trigger] av[j] == self.args@[j]@,
                crate::strmap::view_entries(out.entries()) == named_entries(av.take(i as int)),
        {
            assert(av.take(i + 1).drop_last() =~= av.take(i as int));
            let arg = &self.args[i];
            match &arg.name {
                Some(name) => {
                    let ghost before = out.entries();
                    let v = arg.value.clone();
                    out.insert(name.clone(), v);
                    proof {
                        crate::strmap::lemma_view_entries_insert(before, name@, v);
                    }
                },
                None => {},
            }
        }
        assert(av.take(self.args.len() as int) =~= av);
        out
    }
}

/// The name of a vector type.
pub open spec fn vector_type_name(t: VectorType) -> Seq<char> {
    match t {
        VectorType::Position => "position"@,
        VectorType::Free => "free"@,
        VectorType::Bound => "bound"@,
        VectorType::Unit => "unit"@,
        VectorType::Zero => "zero"@,
        VectorType::Spatial => "spatial"@,
    }
}

/// The vector type with the given name, if any.
pub open spec fn vector_type_named(s: Seq<char>) -> Option<VectorType> {
    if s == "position"@ {
        Some(VectorType::Position)
    } else if s == "free"@ {
        Some(VectorType::Free)
    } else if s == "bound"@ {
        Some(VectorType::Bound)
    } else if s == "unit"@ {
        Some(VectorType::Unit)
    } else if s == "zero"@ {
        Some(VectorType::Zero)
    } else if s == "spatial"@ {
        Some(VectorType::Spatial)
    } else {
        None
    }
}

impl VectorType {
    pub fn parse(text: &str) -> (r: Option<Self>)
        ensures
            r == vector_type_named(text@),
    {
        if str_eq(text, "position") {
            Some(VectorType::Position)
        } else if str_eq(text, "free") {
            Some(VectorType::Free)
        } else if str_eq(text, "bound") {
            Some(VectorType::Bound)
        } else if str_eq(text, "unit") {
            Some(VectorType::Unit)
        } else if str_eq(text, "zero") {
            Some(VectorType::Zero)
        } else if str_eq(text, "spatial") {
            Some(VectorType::Spatial)
        } else {
            None
        }
    }

    pub fn as_str(self) -> (r: &'static str)
        ensures
            r@ == vector_type_name(self),
    {
        match self {
            VectorType::Position => "position",
            VectorType::Free => "free",
            VectorType::Bound => "bound",
            VectorType::Unit => "unit",
            VectorType::Zero => "zero",
            VectorType::Spatial => "spatial",
        }
    }
}

/// Every vector type is read back from its name.
pub proof fn law_vector_type_name_round_trip(t: VectorType)
    ensures
        vector_type_named(vector_type_name(t)) == Some(t),
{
    reveal_strlit("position");
    reveal_strlit("free");
    reveal_strlit("bound");
    reveal_strlit("unit");
    reveal_strlit("zero");
    reveal_strlit("spatial");
    let names = seq!["position"@, "free"@, "bound"@, "unit"@, "zero"@, "spatial"@];
    assert forall|i: int, j: int| 0 <= i < j < 6 implies names[i] != names[j] by {
        assert(names[i][0] != names[j][0] || names[i].len() != names[j].len());
    }
    assert(names[0] == "position"@);
    assert(names[1] == "free"@);
    assert(names[2] == "bound"@);
    assert(names[3] == "unit"@);
    assert(names[4] == "zero"@);
    assert(names[5] == "spatial"@);
}

} // verus!
verus! {

impl View for VectorType {
    type V = VectorType;

    open spec fn view(&self) -> VectorType {
        *self
    }
}

} // verus!
verus! {

/// The value of the last argument named `key`, if any.
pub open spec fn last_named(args: Seq<NamedArgView>, key: Seq<char>) -> Option<ExprView>
    decreases args.len(),
{
    if args.len() == 0 {
        None
    } else if args.last().name == Some(key) {
        Some(args.last().value)
    } else {
        last_named(args.drop_last(), key)
    }
}

proof fn lemma_lookup_after_insert(es: Seq<(Seq<char>, ExprView)>, n: Seq<char>, v: ExprView, k: Seq<char>)
    ensures
        k == n ==> crate::strmap::entry_lookup(sorted_insert(es, n, v), k) === Some(v),
        k != n ==> crate::strmap::entry_lookup(sorted_insert(es, n, v), k) === crate::strmap::entry_lookup(es, k),
    decreases es.len(),
{
    if es.len() > 0 {
        if es[0].0 == n {
            let r = seq![(n, v)] + es.drop_first();
            assert(r[0] == (n, v));
            assert(r.drop_first() =~= es.drop_first());
            assert(sorted_insert(es, n, v) == r);
            assert(crate::strmap::entry_lookup(r, k) == if k == n { Some(v) } else { crate::strmap::entry_lookup(r.drop_first(), k) });
            if k != n {
                assert(crate::strmap::entry_lookup(es, k) == crate::strmap::entry_lookup(es.drop_first(), k));
            }
        } else if crate::text::seq_lt(n, es[0].0) {
            let r = seq![(n, v)] + es;
            assert(r[0] == (n, v));
            assert(r.drop_first() =~= es);
            assert(sorted_insert(es, n, v) == r);
            assert(crate::strmap::entry_lookup(r, k) == if k == n { Some(v) } else { crate::strmap::entry_lookup(es, k) });
        } else {
            lemma_lookup_after_insert(es.drop_first(), n, v, k);
            let t = sorted_insert(es.drop_first(), n, v);
            let r = seq![es[0]] + t;
            assert(r[0] == es[0]);
            assert(r.drop_first() =~= t);
            assert(sorted_insert(es, n, v) == r);
            if es[0].0 == k {
                assert(crate::strmap::entry_lookup(r, k) == Some(es[0].1));
                assert(crate::strmap::entry_lookup(es, k) == Some(es[0].1));
            } else {
                assert(crate::strmap::entry_lookup(r, k) == crate::strmap::entry_lookup(t, k));
                assert(crate::strmap::entry_lookup(es, k) == crate::strmap::entry_lookup(es.drop_first(), k));
            }
        }
    } else {
        let r = seq![(n, v)];
        assert(r[0] == (n, v));
        assert(r.drop_first() =~= Seq::<(Seq<char>, ExprView)>::empty());
        assert(sorted_insert(es, n, v) == r);
        if k != n {
            assert(crate::strmap::entry_lookup(r, k) == crate::strmap::entry_lookup(r.drop_first(), k));
        }
    }
}

proof fn lemma_unique_name_first(args: Seq<NamedArgView>, key: Seq<char>, i: int)
    requires
        0 <= i < args.len(),
        args[i].name == Some(key),
        forall|j: int| 0 <= j < args.len() && j != i ==> args[j].name != Some(key),
    ensures
        ctx_lookup(args, key) == Some(args[i].value),
    decreases i,
{
    if i > 0 {
        let t = args.drop_first();
        assert forall|j: int| 0 <= j < t.len() && j != i - 1 implies t[j].name != Some(key) by {
            assert(t[j] == args[j + 1]);
        }
        lemma_unique_name_first(t, key, i - 1);
    }
}

proof fn lemma_unique_name_last(args: Seq<NamedArgView>, key: Seq<char>, i: int)
    requires
        0 <= i < args.len(),
        args[i].name == Some(key),
        forall|j: int| 0 <= j < args.len() && j != i ==> args[j].name != Some(key),
    ensures
        last_named(args, key) == Some(args[i].value),
    decreases args.len(),
{
    if i < args.len() - 1 {
        let t = args.drop_last();
        assert forall|j: int| 0 <= j < t.len() && j != i implies t[j].name != Some(key) by {
            assert(t[j] == args[j]);
        }
        lemma_unique_name_last(t, key, i);
    }
}

/// `ContextExpr::as_map` keeps, for each name, the value of the last
/// argument with that name, while `ContextExpr::get` gives the first; so
/// the two agree on a name that one argument alone carries, and neither
/// knows a name that no argument carries.
pub proof fn law_as_map_and_get(args: Seq<NamedArgView>, key: Seq<char>)
    ensures
        crate::strmap::entry_lookup(named_entries(args), key) == last_named(args, key),
        (forall|j: int| 0 <= j < args.len() ==> args[j].name != Some(key)) ==> ctx_lookup(args, key) is None
            && last_named(args, key) is None,
        forall|i: int|
            0 <= i < args.len() && args[i].name == Some(key) && (forall|j: int|
                0 <= j < args.len() && j != i ==> args[j].name != Some(key)) ==> ctx_lookup(args, key) == Some(
                args[i].value) && #[trigger] last_named(args, key) == Some(args[i].value),
    decreases args.len(),
{
    if args.len() > 0 {
        law_as_map_and_get(args.drop_last(), key);
        match args.last().name {
            Some(n) => {
                lemma_lookup_after_insert(named_entries(args.drop_last()), n, args.last().value, key);
            },
            None => {},
        }
        if forall|j: int| 0 <= j < args.len() ==> args[j].name != Some(key) {
            lemma_no_name(args, key);
        }
        assert forall|i: int|
            0 <= i < args.len() && args[i].name == Some(key) && (forall|j: int|
                0 <= j < args.len() && j != i ==> args[j].name != Some(key)) implies ctx_lookup(args, key) == Some(
                args[i].value) && #[trigger] last_named(args, key) == Some(args[i].value) by {
            lemma_unique_name_first(args, key, i);
            lemma_unique_name_last(args, key, i);
        }
    }
}

proof fn lemma_no_name(args: Seq<NamedArgView>, key: Seq<char>)
    requires
        forall|j: int| 0 <= j < args.len() ==> args[j].name != Some(key),
    ensures
        ctx_lookup(args, key) is None,
        last_named(args, key) is None,
    decreases args.len(),
{
    if args.len() > 0 {
        let t = args.drop_first();
        assert forall|j: int| 0 <= j < t.len() implies t[j].name != Some(key) by {
            assert(t[j] == args[j + 1]);
        }
        lemma_no_name(t, key);
        let u = args.drop_last();
        assert forall|j: int| 0 <= j < u.len() implies u[j].name != Some(key) by {
            assert(u[j] == args[j]);
        }
        lemma_no_name(u, key);
    }
}

} // verus!
