//! The compiler: statements to kernel operations; with the evaluation of
//! expressions to numbers, values and text, and the authentication ratio of
//! a certification context.
use vstd::prelude::*;
use crate::ast::{Expr, ExprView, NamedArg, NamedArgView, ContextExpr, Program, Statement, StatementView,
    ContractActionView, args_view, lemma_args_view, expr_text, arg_text, args_text, expr_debug, push_expr,
    push_arg, push_args, push_expr_debug, opt_expr_view};
use crate::error::{RuntimeError, RuntimeErrorKind, RuntimeErrorKindView, RuntimeErrorView, plain_error};
use crate::kernel::{KernelOp, KernelOpView, op_views};
use crate::strmap::{StrMap, sorted_insert, view_entries, lemma_view_entries_insert};
use crate::text::{dec, dec_fixed, blank, is_blank, str_eq, push_str, push_dec, push_dec_fixed, owned, views,
    join};
use crate::value::{Value, ValueView, Context, value_debug, entries_view, lemma_entries_view, lemma_entries_view_of_map,
    push_value_debug};

verus! {

broadcast use vstd::string::group_string_axioms;

#[derive(Debug, Clone, PartialEq, Eq)]
pub struct CompilerConfig {
    pub certification_threshold: String,
}

impl Default for CompilerConfig {
    fn default() -> (r: Self)
        ensures
            r.certification_threshold@ == "0.8000"@,
    {
        CompilerConfig { certification_threshold: owned("0.8000") }
    }
}

#[derive(Debug, Clone, PartialEq, Eq)]
pub struct CompilationUnit {
    pub ops: Vec<KernelOp>,
}

/// The text of an expression.
pub fn expr_to_string(expr: &Expr) -> (r: String)
    ensures
        r@ == expr_text(expr@),
{
    let mut out = String::new();
    push_expr(&mut out, expr);
    out
}

/// The value of an expression: numbers as numbers, strings and identifiers
/// as strings, paths as paths, a call as a map of its callee and its named
/// arguments, a group as its content.
pub open spec fn value_of(e: ExprView) -> ValueView
    decreases e,
{
    match e {
        ExprView::Integer(v) => ValueView::Int(v),
        ExprView::String(s) => ValueView::String(s),
        ExprView::Ident(s) => ValueView::String(s),
        ExprView::Path(p) => ValueView::Path(p),
        ExprView::Call { callee, args } => ValueView::Dict(
            sorted_insert(
                sorted_insert(Seq::empty(), "callee"@, ValueView::String(callee)),
                "args"@,
                ValueView::Dict(arg_values(args)),
            ),
        ),
        ExprView::Group(inner) => value_of(*inner),
    }
}

/// The named arguments with their values, in key order; a later argument
/// with the same name replaces an earlier one.
pub open spec fn arg_values(args: Seq<NamedArgView>) -> Seq<(Seq<char>, ValueView)>
    decreases args,
{
    if args.len() == 0 {
        Seq::empty()
    } else {
        let prev = arg_values(args.subrange(0, args.len() - 1));
        let last = args[args.len() - 1];
        match last.name {
            Some(n) => sorted_insert(prev, n, value_of(last.value)),
            None => prev,
        }
    }
}

fn named_values(args: &Vec<NamedArg>) -> (r: StrMap<Value>)
    ensures
        r.wf(),
        entries_view(r.keys@, r.vals@) == arg_values(args_view(args@)),
    decreases args,
{
    let ghost av = args_view(args@);
    proof {
        lemma_args_view(args@);
    }
    let mut map: StrMap<Value> = StrMap::new();
    proof {
        lemma_entries_view_of_map(map);
        assert(view_entries(map.entries()) =~= Seq::<(Seq<char>, ValueView)>::empty());
        assert(av.take(0) =~= Seq::<NamedArgView>::empty());
    }
    for i in 0..args.len()
        invariant
            map.wf(),
            av == args_view(args@),
            av.len() == args.len(),
            forall|j: int| 0 <= j < args.len() ==> #[trigger] av[j] == args@[j]@,
            entries_view(map.keys@, map.vals@) == arg_values(av.take(i as int)),
    {
        proof {
            let s = av.take(i + 1);
            assert(s.subrange(0, i as int) == av.take(i as int));
            let a = args@[i as int];
            assert(decreases_to!(*args => args@));
            assert(decreases_to!(args@ => a));
            assert(decreases_to!(a => a.value));
        }
        match &args[i].name {
            Some(name) => {
                let ghost before = map.entries();
                proof {
                    lemma_entries_view_of_map(map);
                }
                let v = value_from_expr(&args[i].value);
                let ghost vv = v;
                map.insert(name.clone(), v);
                proof {
                    lemma_entries_view_of_map(map);
                    lemma_view_entries_insert(before, name@, vv);
                }
            },
            None => {},
        }
    }
    assert(av.take(args.len() as int) == av);
    map
}

/// The value of an expression.
pub fn value_from_expr(expr: &Expr) -> (r: Value)
    ensures
        r@ == value_of(expr@),
    decreases expr,
{
    match expr {
        Expr::Integer(v) => Value::Int(*v),
        Expr::String(v) => Value::String(v.clone()),
        Expr::Ident(v) => Value::String(v.clone()),
        Expr::Path(parts) => Value::Path(crate::text::copy_strings(parts)),
        Expr::Call { callee, args } => {
            proof {
                assert(decreases_to!(*expr => (*expr)->args));
            }
            let map = named_values(args);
            let mut out: StrMap<Value> = StrMap::new();
            let ghost e0 = out.entries();
            proof {
                lemma_entries_view_of_map(out);
                assert(view_entries(e0) =~= Seq::<(Seq<char>, ValueView)>::empty());
            }
            let cv = Value::String(callee.clone());
            let ghost cvv = cv;
            out.insert(owned("callee"), cv);
            let ghost e1 = out.entries();
            proof {
                lemma_view_entries_insert(e0, "callee"@, cvv);
                lemma_entries_view_of_map(out);
            }
            let mv = Value::Dict(map);
            let ghost mvv = mv;
            out.insert(owned("args"), mv);
            proof {
                lemma_view_entries_insert(e1, "args"@, mvv);
                lemma_entries_view_of_map(out);
            }
            Value::Dict(out)
        },
        Expr::Group(inner) => value_from_expr(inner),
    }
}

/// The context that a `ctx(...)` expression denotes.
pub fn eval_context(expr: &ContextExpr) -> (r: Context)
    ensures
        r.fields.wf(),
        r@ == arg_values(args_view(expr.args@)),
{
    Context { fields: named_values(&expr.args) }
}

/// A number: a literal, a name bound in `env`, or a group of one. Other
/// expressions are refused.
pub open spec fn eval_int_spec(e: ExprView, env: Map<Seq<char>, u128>) -> Result<u128, RuntimeErrorView>
    decreases e,
{
    match e {
        ExprView::Integer(v) => Ok(v),
        ExprView::Ident(name) => if env.contains_key(name) {
            Ok(env[name])
        } else {
            Err(plain_error(RuntimeErrorKindView::UnknownSymbol(name)))
        },
        ExprView::Group(inner) => eval_int_spec(*inner, env),
        other => Err(plain_error(RuntimeErrorKindView::InvalidOperation(
            "expected integer expression, found "@ + expr_debug(other)))),
    }
}

/// The number that an expression denotes.
pub fn eval_int(expr: &Expr, env: &StrMap<u128>) -> (r: Result<u128, RuntimeError>)
    requires
        env.wf(),
    ensures
        match eval_int_spec(expr@, env.map_view()) {
            Ok(v) => r == Ok::<u128, RuntimeError>(v),
            Err(e) => r matches Err(x) && x@ == e,
        },
    decreases expr,
{
    match expr {
        Expr::Integer(v) => Ok(*v),
        Expr::Ident(name) => match env.get(name.as_str()) {
            Some(v) => Ok(*v),
            None => Err(RuntimeError::new(RuntimeErrorKind::UnknownSymbol(name.clone()))),
        },
        Expr::Group(inner) => eval_int(inner, env),
        other => {
            let mut msg = String::new();
            push_str(&mut msg, "expected integer expression, found ");
            push_expr_debug(&mut msg, other);
            Err(RuntimeError::new(RuntimeErrorKind::InvalidOperation(msg)))
        },
    }
}

} // verus!
verus! {

/// The string under `k` in a context, if the field is a string.
pub open spec fn str_field(ctx: Seq<(Seq<char>, ValueView)>, k: Seq<char>) -> Option<Seq<char>> {
    match crate::strmap::entry_lookup(ctx, k) {
        Some(ValueView::String(s)) => Some(s),
        _ => None,
    }
}

/// The authentication ratio of a context in units of 1/10000: the weighted
/// sum `0.35 m + 0.25 c + 0.25 o + 0.15 p` of four factors (in hundredths):
/// `p` is 0 for a blank `op`, 75 where `op` is not a string, else 100; `c` is
/// 50 for a blank `space`, else 100; `o` is 80 for `risk = "high"`, else 100;
/// an empty context has every factor at 50.
pub open spec fn auth_bp(ctx: Seq<(Seq<char>, ValueView)>) -> nat {
    let p: nat = match str_field(ctx, "op"@) {
        Some(s) => if blank(s) { 0 } else { 100 },
        None => 75,
    };
    let c: nat = match str_field(ctx, "space"@) {
        Some(s) => if blank(s) { 50 } else { 100 },
        None => 100,
    };
    let o: nat = match str_field(ctx, "risk"@) {
        Some(s) => if s == "high"@ { 80 } else { 100 },
        None => 100,
    };
    if ctx.len() == 0 {
        35 * 50 + 25 * 50 + 25 * 50 + 15 * 50
    } else {
        35 * 100 + 25 * c + 25 * o + 15 * p
    }
}

/// A ratio in units of 1/10000 written with four decimals.
pub open spec fn ratio_text(bp: nat) -> Seq<char> {
    dec(bp / 10000) + "."@ + dec_fixed(bp % 10000, 4)
}

/// Whether a context certifies: a ratio of at least 0.8.
pub open spec fn certifies(ctx: Seq<(Seq<char>, ValueView)>) -> bool {
    auth_bp(ctx) >= 8000
}

proof fn lemma_context_get(ctx: Context, k: Seq<char>)
    requires
        ctx.fields.wf(),
    ensures
        ctx.fields.map_view().contains_key(k) ==> crate::strmap::entry_lookup(ctx@, k) == Some(ctx.fields.map_view()[k]@),
        !ctx.fields.map_view().contains_key(k) ==> crate::strmap::entry_lookup(ctx@, k) is None,
{
    ctx.fields.lemma_lookup(k);
    crate::strmap::lemma_entry_lookup_view(ctx.fields.entries(), k);
    lemma_entries_view_of_map(ctx.fields);
}

fn string_field<'a>(ctx: &'a Context, key: &str) -> (r: Option<&'a String>)
    requires
        ctx.fields.wf(),
    ensures
        match str_field(ctx@, key@) {
            Some(s) => r matches Some(x) && x@ == s,
            None => r is None,
        },
{
    proof {
        lemma_context_get(*ctx, key@);
    }
    match ctx.get(key) {
        Some(Value::String(s)) => Some(s),
        _ => None,
    }
}

/// The authentication ratio of a context, in units of 1/10000.
fn auth_ratio_basis_points(ctx: &Context) -> (r: u32)
    requires
        ctx.fields.wf(),
    ensures
        r == auth_bp(ctx@),
{
    let mut ac: u32 = 100;
    let mut ao: u32 = 100;
    let mut ap: u32 = 100;
    match string_field(ctx, "op") {
        Some(op) => {
            if is_blank(op.as_str()) {
                ap = 0;
            }
        },
        None => {
            ap = 75;
        },
    }
    match string_field(ctx, "space") {
        Some(space) => {
            if is_blank(space.as_str()) {
                ac = 50;
            }
        },
        None => {},
    }
    match string_field(ctx, "risk") {
        Some(risk) => {
            if str_eq(risk.as_str(), "high") {
                ao = 80;
            }
        },
        None => {},
    }
    let n = ctx.fields.len();
    proof {
        lemma_entries_view(ctx.fields.keys@, ctx.fields.vals@);
    }
    if n == 0 {
        35 * 50 + 25 * 50 + 25 * 50 + 15 * 50
    } else {
        35 * 100 + 25 * ac + 25 * ao + 15 * ap
    }
}

fn ratio_string(bp: u32) -> (r: String)
    ensures
        r@ == ratio_text(bp as nat),
{
    let mut out = String::new();
    push_dec(&mut out, (bp / 10000) as u128);
    push_str(&mut out, ".");
    push_dec_fixed(&mut out, (bp % 10000) as u128, 4);
    out
}

/// The authentication ratio of a certification context, with four decimals.
fn compute_auth_ratio(ctx: &Context) -> (r: String)
    requires
        ctx.fields.wf(),
    ensures
        r@ == ratio_text(auth_bp(ctx@)),
{
    ratio_string(auth_ratio_basis_points(ctx))
}

/// `key=value` items of a context, `Debug` values, separated by `, `.
pub open spec fn ctx_items(es: Seq<(Seq<char>, ValueView)>) -> Seq<char>
    decreases es.len(),
{
    if es.len() == 0 {
        Seq::empty()
    } else {
        let sep = if es.len() > 1 { ", "@ } else { Seq::empty() };
        ctx_items(es.drop_last()) + sep + es.last().0 + "="@ + value_debug(es.last().1)
    }
}

/// The text of a context: `ctx(key=value, ...)` in key order.
pub open spec fn ctx_text(es: Seq<(Seq<char>, ValueView)>) -> Seq<char> {
    "ctx("@ + ctx_items(es) + ")"@
}

fn context_text(ctx: &Context) -> (r: String)
    requires
        ctx.fields.wf(),
    ensures
        r@ == ctx_text(ctx@),
{
    let mut out = String::new();
    push_str(&mut out, "ctx(");
    let ghost start = out@;
    let ghost es = ctx@;
    proof {
        lemma_entries_view(ctx.fields.keys@, ctx.fields.vals@);
    }
    let n = ctx.fields.len();
    let mut i: usize = 0;
    while i < n
        invariant
            i <= n,
            n == ctx.fields.keys@.len(),
            ctx.fields.wf(),
            es == ctx@,
            es.len() == n,
            forall|j: int| 0 <= j < n ==> #[trigger] es[j] == (ctx.fields.keys@[j]@, ctx.fields.vals@[j]@),
            out@ == start + ctx_items(es.take(i as int)),
        decreases n - i,
    {
        if i > 0 {
            push_str(&mut out, ", ");
        }
        push_str(&mut out, ctx.fields.key_at(i).as_str());
        push_str(&mut out, "=");
        push_value_debug(&mut out, ctx.fields.val_at(i));
        assert(es.take(i + 1).drop_last() == es.take(i as int));
        i = i + 1;
    }
    assert(es.take(n as int) == es);
    push_str(&mut out, ")");
    out
}

} // verus!
verus! {

/// `n` in decimal with at least three digits (`{:03}`).
pub open spec fn pad3(n: nat) -> Seq<char> {
    if n < 10 {
        "00"@ + dec(n)
    } else if n < 100 {
        "0"@ + dec(n)
    } else {
        dec(n)
    }
}

/// A contract action as text: `name(args)`.
pub open spec fn action_text(a: ContractActionView) -> Seq<char> {
    a.name + "("@ + args_text(a.args) + ")"@
}

/// The operation that invokes a contract action.
pub open spec fn action_op(contract: Seq<char>, a: ContractActionView) -> KernelOpView {
    KernelOpView::ContractAction { contract, action: a.name, args: a.args.map_values(|x: NamedArgView| arg_text(x)) }
}

pub open spec fn opt_text(e: Option<ExprView>) -> Option<Seq<char>> {
    match e {
        Some(x) => Some(expr_text(x)),
        None => None,
    }
}

/// `u64::saturating_add`.
pub open spec fn sat_add_u64(a: u64, b: u64) -> u64 {
    if a + b > u64::MAX { u64::MAX } else { (a + b) as u64 }
}

/// The operations of one statement, given the number of projections
/// compiled so far; with the new number of projections.
pub open spec fn compile_stmt(s: StatementView, projections: u64) -> Result<(Seq<KernelOpView>, u64), RuntimeErrorView> {
    let no_env = Map::<Seq<char>, u128>::empty();
    match s {
        StatementView::VectorDecl { name, vector_type, components } =>
            Ok((seq![KernelOpView::CreateVector { name, vector_type, components }], projections)),
        StatementView::WalletDecl { name, public_key } =>
            Ok((seq![KernelOpView::BindWallet { name, public_key }], projections)),
        StatementView::Certify { target, context } => {
            let es = arg_values(context);
            Ok((seq![KernelOpView::Certify {
                target,
                context: ctx_text(es),
                auth_ratio: ratio_text(auth_bp(es)),
                certified: certifies(es),
            }], projections))
        },
        StatementView::Transfer { source, destination, amount, drain, policy } =>
            match eval_int_spec(amount, no_env) {
                Ok(a) => {
                    let d = match drain {
                        Some(e) => eval_int_spec(e, no_env),
                        None => Ok(0u128),
                    };
                    match d {
                        Ok(dv) => Ok((seq![KernelOpView::Transfer {
                            source,
                            destination,
                            amount: a,
                            drain: dv,
                            policy: opt_text(policy),
                        }], projections)),
                        Err(e) => Err(e),
                    }
                },
                Err(e) => Err(e),
            },
        StatementView::Drain { target, amount } => match eval_int_spec(amount, no_env) {
            Ok(a) => Ok((seq![KernelOpView::Drain { target, amount: a }], projections)),
            Err(e) => Err(e),
        },
        StatementView::Project { source, environment, amount, policy } => match eval_int_spec(amount, no_env) {
            Ok(a) => {
                let n = sat_add_u64(projections, 1);
                Ok((seq![KernelOpView::Project {
                    source,
                    environment,
                    amount: a,
                    policy: opt_text(policy),
                    projection_id: "proj_"@ + pad3(n as nat),
                }], n))
            },
            Err(e) => Err(e),
        },
        StatementView::Reconstruct { target, projection_id } =>
            Ok((seq![KernelOpView::Reconstruct { target, projection_id }], projections)),
        StatementView::Query { expr } => Ok((seq![KernelOpView::Query { expr: expr_text(expr) }], projections)),
        StatementView::Record { expr } => Ok((seq![KernelOpView::Record { expr: expr_text(expr) }], projections)),
        StatementView::Contract { name, actions } => Ok((
            seq![KernelOpView::Contract { name, actions: actions.map_values(|a: ContractActionView| action_text(a)) }]
                + actions.map_values(|a: ContractActionView| action_op(name, a)),
            projections,
        )),
    }
}

/// The operations of statements, in order, or the first error.
pub open spec fn compile_from(stmts: Seq<StatementView>, projections: u64) -> Result<Seq<KernelOpView>, RuntimeErrorView>
    decreases stmts.len(),
{
    if stmts.len() == 0 {
        Ok(Seq::empty())
    } else {
        match compile_stmt(stmts[0], projections) {
            Ok((ops, n)) => match compile_from(stmts.drop_first(), n) {
                Ok(rest) => Ok(ops + rest),
                Err(e) => Err(e),
            },
            Err(e) => Err(e),
        }
    }
}

/// The operations of a program.
pub open spec fn compile_spec(p: Seq<StatementView>) -> Result<Seq<KernelOpView>, RuntimeErrorView> {
    compile_from(p, 0)
}

fn pad3_string(n: u64) -> (r: String)
    ensures
        r@ == pad3(n as nat),
{
    let mut out = String::new();
    if n < 10 {
        push_str(&mut out, "00");
    } else if n < 100 {
        push_str(&mut out, "0");
    }
    push_dec(&mut out, n as u128);
    out
}

fn arg_string(a: &NamedArg) -> (r: String)
    ensures
        r@ == arg_text(a@),
{
    let mut out = String::new();
    push_arg(&mut out, a);
    out
}

fn action_string(a: &crate::ast::ContractAction) -> (r: String)
    ensures
        r@ == action_text(a@),
{
    let mut out = String::new();
    push_str(&mut out, a.name.as_str());
    push_str(&mut out, "(");
    push_args(&mut out, &a.args);
    push_str(&mut out, ")");
    out
}

fn action_args(a: &crate::ast::ContractAction) -> (r: Vec<String>)
    ensures
        views(r@) == a@.args.map_values(|x: NamedArgView| arg_text(x)),
{
    let mut out: Vec<String> = Vec::new();
    proof {
        lemma_args_view(a.args@);
    }
    for i in 0..a.args.len()
        invariant
            args_view(a.args@).len() == a.args.len(),
            forall|j: int| 0 <= j < a.args.len() ==> #[trigger] args_view(a.args@)[j] == a.args@[j]@,
            out.len() == i,
            forall|j: int| 0 <= j < i ==> #[trigger] out@[j]@ == arg_text(a.args@[j]@),
    {
        out.push(arg_string(&a.args[i]));
    }
    assert(views(out@) =~= a@.args.map_values(|x: NamedArgView| arg_text(x)));
    out
}

/// The operations of one statement, appended to `ops`.
fn compile_statement(statement: &Statement, ops: &mut Vec<KernelOp>, projections: &mut u64) -> (r: Result<(), RuntimeError>)
    ensures
        match compile_stmt(statement@, *old(projections)) {
            Ok((new_ops, n)) => r is Ok && op_views(final(ops)@) == op_views(old(ops)@) + new_ops
                && *final(projections) == n,
            Err(e) => r matches Err(x) && x@ == e,
        },
{
    let ghost before = op_views(ops@);
    let env: StrMap<u128> = StrMap::new();
    assert(env.map_view() =~= Map::<Seq<char>, u128>::empty());
    match statement {
        Statement::VectorDecl(v) => {
            ops.push(KernelOp::CreateVector {
                name: v.name.clone(),
                vector_type: v.vector_type,
                components: crate::text::copy_u128s(&v.components),
            });
        },
        Statement::WalletDecl(w) => {
            ops.push(KernelOp::BindWallet { name: w.name.clone(), public_key: w.public_key.clone() });
        },
        Statement::Certify(c) => {
            let ctx = eval_context(&c.context);
            let context_text = context_text(&ctx);
            let ratio = compute_auth_ratio(&ctx);
            let certified = auth_ratio_basis_points(&ctx) >= 8000;
            ops.push(KernelOp::Certify { target: c.target.clone(), context: context_text, auth_ratio: ratio, certified });
        },
        Statement::Transfer(t) => {
            let amount = eval_int(&t.amount, &env)?;
            let drain = match &t.drain {
                Some(e) => eval_int(e, &env)?,
                None => 0,
            };
            let policy = match &t.policy {
                Some(e) => Some(expr_to_string(e)),
                None => None,
            };
            ops.push(KernelOp::Transfer {
                source: t.source.clone(),
                destination: t.destination.clone(),
                amount,
                drain,
                policy,
            });
        },
        Statement::Drain(d) => {
            let amount = eval_int(&d.amount, &env)?;
            ops.push(KernelOp::Drain { target: d.target.clone(), amount });
        },
        Statement::Project(p) => {
            let amount = eval_int(&p.amount, &env)?;
            let policy = match &p.policy {
                Some(e) => Some(expr_to_string(e)),
                None => None,
            };
            *projections = projections.saturating_add(1);
            let mut projection_id = owned("proj_");
            let digits = pad3_string(*projections);
            push_str(&mut projection_id, digits.as_str());
            ops.push(KernelOp::Project {
                source: p.source.clone(),
                environment: p.environment.clone(),
                amount,
                policy,
                projection_id,
            });
        },
        Statement::Reconstruct(r) => {
            ops.push(KernelOp::Reconstruct { target: r.target.clone(), projection_id: r.projection_id.clone() });
        },
        Statement::Query(q) => {
            ops.push(KernelOp::Query { expr: expr_to_string(&q.expr) });
        },
        Statement::Record(r) => {
            ops.push(KernelOp::Record { expr: expr_to_string(&r.expr) });
        },
        Statement::Contract(c) => {
            let mut actions: Vec<String> = Vec::new();
            for i in 0..c.actions.len()
                invariant
                    actions.len() == i,
                    forall|j: int| 0 <= j < i ==> #[trigger] actions@[j]@ == action_text(c.actions@[j]@),
            {
                actions.push(action_string(&c.actions[i]));
            }
            let ghost acts = c.actions@.map_values(|a: crate::ast::ContractAction| a@);
            assert(views(actions@) =~= acts.map_values(|a: ContractActionView| action_text(a)));
            ops.push(KernelOp::Contract { name: c.name.clone(), actions });
            let ghost mid = op_views(ops@);
            for i in 0..c.actions.len()
                invariant
                    op_views(ops@) == mid + acts.take(i as int).map_values(|a: ContractActionView| action_op(c.name@, a)),
                    acts == c.actions@.map_values(|a: crate::ast::ContractAction| a@),
            {
                let action = &c.actions[i];
                let ghost prev = ops@;
                ops.push(KernelOp::ContractAction {
                    contract: c.name.clone(),
                    action: action.name.clone(),
                    args: action_args(action),
                });
                proof {
                    assert(op_views(ops@) =~= op_views(prev).push(ops@.last()@));
                    assert(acts.take(i + 1).map_values(|a: ContractActionView| action_op(c.name@, a))
                        =~= acts.take(i as int).map_values(|a: ContractActionView| action_op(c.name@, a)).push(
                            action_op(c.name@, acts[i as int])));
                }
            }
            assert(acts.take(c.actions.len() as int) == acts);
        },
    }
    proof {
        assert(op_views(ops@) =~= before + (op_views(ops@).skip(before.len() as int)));
    }
    Ok(())
}

} // verus!
verus! {

/// Compiles a program to kernel operations, statement by statement;
/// projections are numbered `proj_001`, `proj_002`, ... in order.
pub fn compile_program(program: &Program) -> (r: Result<CompilationUnit, RuntimeError>)
    ensures
        match compile_spec(program@) {
            Ok(ops) => r matches Ok(u) && op_views(u.ops@) == ops,
            Err(e) => r matches Err(x) && x@ == e,
        },
{
    let ghost all = program@;
    let mut ops: Vec<KernelOp> = Vec::new();
    let mut projection_seq: u64 = 0;
    assert(all.skip(0) =~= all);
    assert(op_views(ops@) =~= Seq::<KernelOpView>::empty());
    for i in 0..program.statements.len()
        invariant
            all == program@,
            all.len() == program.statements.len(),
            compile_from(all, 0) == match compile_from(all.skip(i as int), projection_seq) {
                Ok(rest) => Ok(op_views(ops@) + rest),
                Err(e) => Err::<Seq<KernelOpView>, RuntimeErrorView>(e),
            },
    {
        let ghost prev = op_views(ops@);
        let ghost rest = all.skip(i as int);
        assert(rest[0] == program.statements@[i as int]@);
        assert(rest.drop_first() =~= all.skip(i + 1));
        let ghost seq0 = projection_seq;
        match compile_statement(&program.statements[i], &mut ops, &mut projection_seq) {
            Ok(()) => {
                proof {
                    match compile_stmt(rest[0], seq0) {
                        Ok((nops, n)) => {
                            assert(op_views(ops@) == prev + nops);
                            match compile_from(all.skip(i + 1), n) {
                                Ok(tail) => {
                                    assert(prev + (nops + tail) =~= op_views(ops@) + tail);
                                },
                                Err(e) => {},
                            }
                        },
                        Err(e) => {},
                    }
                }
            },
            Err(e) => {
                return Err(e);
            },
        }
    }
    assert(all.skip(program.statements.len() as int) =~= Seq::<StatementView>::empty());
    assert(op_views(ops@) + Seq::<KernelOpView>::empty() =~= op_views(ops@));
    Ok(CompilationUnit { ops })
}

} // verus!
verus! {

/// Key-ordered entries with each expression taken as the value it denotes.
pub open spec fn value_entries(es: Seq<(Seq<char>, ExprView)>) -> Seq<(Seq<char>, ValueView)> {
    es.map_values(|e: (Seq<char>, ExprView)| (e.0, value_of(e.1)))
}

proof fn lemma_value_entries_insert(es: Seq<(Seq<char>, ExprView)>, k: Seq<char>, v: ExprView)
    ensures
        value_entries(sorted_insert(es, k, v)) == sorted_insert(value_entries(es), k, value_of(v)),
    decreases es.len(),
{
    let ve = value_entries(es);
    if es.len() == 0 {
        assert(value_entries(sorted_insert(es, k, v)) =~= seq![(k, value_of(v))]);
    } else {
        assert(ve.drop_first() =~= value_entries(es.drop_first()));
        if es[0].0 == k {
            assert(value_entries(sorted_insert(es, k, v)) =~= seq![(k, value_of(v))] + ve.drop_first());
        } else if crate::text::seq_lt(k, es[0].0) {
            assert(value_entries(sorted_insert(es, k, v)) =~= seq![(k, value_of(v))] + ve);
        } else {
            lemma_value_entries_insert(es.drop_first(), k, v);
            assert(value_entries(sorted_insert(es, k, v)) =~= seq![ve[0]] + sorted_insert(ve.drop_first(), k,
                value_of(v)));
        }
    }
}

/// The context of a `ctx(...)` expression (`eval_context`) is its map of
/// named arguments (`ContextExpr::as_map`: the last argument of a name
/// wins) with each expression taken as the value it denotes; positional
/// arguments are left out.
pub proof fn law_context_is_map_of_values(args: Seq<NamedArgView>)
    ensures
        arg_values(args) == value_entries(crate::ast::named_entries(args)),
    decreases args.len(),
{
    if args.len() > 0 {
        assert(args.subrange(0, args.len() - 1) =~= args.drop_last());
        law_context_is_map_of_values(args.drop_last());
        match args.last().name {
            Some(n) => {
                lemma_value_entries_insert(crate::ast::named_entries(args.drop_last()), n, args.last().value);
            },
            None => {},
        }
    } else {
        assert(value_entries(crate::ast::named_entries(args)) =~= Seq::<(Seq<char>, ValueView)>::empty());
    }
}

} // verus!
verus! {

/// A transfer with literal amount `a` compiles to one transfer operation
/// that carries `a` and the drain it was written with (`drain d` gives
/// `d`, no drain clause gives zero), and leaves the projection count as
/// it was; a program of that one statement compiles to that operation.
pub proof fn law_transfer_compiles(
    source: Seq<char>,
    destination: Seq<char>,
    a: u128,
    d: Option<u128>,
    policy: Option<ExprView>,
    n: u64,
)
    ensures
        ({
            let stmt = StatementView::Transfer {
                source,
                destination,
                amount: ExprView::Integer(a),
                drain: match d {
                    Some(x) => Some(ExprView::Integer(x)),
                    None => None,
                },
                policy,
            };
            let op = KernelOpView::Transfer {
                source,
                destination,
                amount: a,
                drain: match d {
                    Some(x) => x,
                    None => 0,
                },
                policy: opt_text(policy),
            };
            &&& compile_stmt(stmt, n) == Ok::<(Seq<KernelOpView>, u64), RuntimeErrorView>((seq![op], n))
            &&& compile_spec(seq![stmt]) == Ok::<Seq<KernelOpView>, RuntimeErrorView>(seq![op])
        }),
{
    let stmt = StatementView::Transfer {
        source,
        destination,
        amount: ExprView::Integer(a),
        drain: match d {
            Some(x) => Some(ExprView::Integer(x)),
            None => None,
        },
        policy,
    };
    assert(seq![stmt].drop_first() =~= Seq::<StatementView>::empty());
    let op = KernelOpView::Transfer {
        source,
        destination,
        amount: a,
        drain: match d {
            Some(x) => x,
            None => 0,
        },
        policy: opt_text(policy),
    };
    assert(seq![op] + Seq::<KernelOpView>::empty() =~= seq![op]);
    assert(compile_stmt(stmt, 0) == Ok::<(Seq<KernelOpView>, u64), RuntimeErrorView>((seq![op], 0)));
    assert(seq![stmt][0] == stmt);
    assert(compile_from(seq![stmt].drop_first(), 0) == Ok::<Seq<KernelOpView>, RuntimeErrorView>(
        Seq::<KernelOpView>::empty()));
}

/// A drain written as a group or through the environment is its value
/// all the same: the drain that a compiled transfer carries is the value
/// of the drain expression, whatever its form.
pub proof fn law_transfer_drain_is_its_value(
    source: Seq<char>,
    destination: Seq<char>,
    amount: ExprView,
    drain: ExprView,
    policy: Option<ExprView>,
    n: u64,
)
    requires
        eval_int_spec(amount, Map::<Seq<char>, u128>::empty()) is Ok,
        eval_int_spec(drain, Map::<Seq<char>, u128>::empty()) is Ok,
    ensures
        compile_stmt(StatementView::Transfer { source, destination, amount, drain: Some(drain), policy }, n)
            == Ok::<(Seq<KernelOpView>, u64), RuntimeErrorView>((seq![KernelOpView::Transfer {
            source,
            destination,
            amount: eval_int_spec(amount, Map::<Seq<char>, u128>::empty())->Ok_0,
            drain: eval_int_spec(drain, Map::<Seq<char>, u128>::empty())->Ok_0,
            policy: opt_text(policy),
        }], n)),
{
}

} // verus!
