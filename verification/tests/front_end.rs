use v_langx::ast::{ContextExpr, Expr, NamedArg, Statement, VectorType};
use v_langx::compiler::{compile_program, eval_context, eval_int, expr_to_string, value_from_expr, CompilerConfig};
use v_langx::error::{ParseError, ParseErrorKind, RuntimeErrorKind, Span};
use v_langx::kernel::KernelOp;
use v_langx::lexer::{lex, Lexer};
use v_langx::parser::{parse, Parser};
use v_langx::strmap::StrMap;
use v_langx::token::{Token, TokenKind};
use v_langx::value::{Context, Value};

fn arg(name: Option<&str>, value: Expr) -> NamedArg {
    NamedArg { name: name.map(|n| n.to_string()), value }
}

#[test]
fn lex_simple_statement() {
    let toks = lex("vector a: free = (1, 22);").unwrap();
    let kinds: Vec<TokenKind> = toks.iter().map(|t| t.kind.clone()).collect();
    assert_eq!(
        kinds,
        vec![
            TokenKind::Vector,
            TokenKind::Ident("a".to_string()),
            TokenKind::Colon,
            TokenKind::Ident("free".to_string()),
            TokenKind::Eq,
            TokenKind::LParen,
            TokenKind::Integer(1),
            TokenKind::Comma,
            TokenKind::Integer(22),
            TokenKind::RParen,
            TokenKind::Semi,
            TokenKind::Eof,
        ]
    );
    assert_eq!(toks[8], Token::new(TokenKind::Integer(22), 21, 23));
    assert_eq!(toks[11], Token::new(TokenKind::Eof, 25, 25));
}

#[test]
fn lex_skips_comments_and_reads_escapes() {
    let toks = lex("# note\n// more\n\"a\\\"b\\n\\q\" x").unwrap();
    assert_eq!(toks[0].kind, TokenKind::String("a\"b\nq".to_string()));
    assert_eq!(toks[0].start, 15);
    assert_eq!(toks[1].kind, TokenKind::Ident("x".to_string()));
    assert_eq!(toks.len(), 3);
}

#[test]
fn lex_errors() {
    let err = lex("a $").unwrap_err();
    assert_eq!(err, ParseError::new(Span::new(2, 3), ParseErrorKind::Message("unexpected character `$`".to_string())));
    assert_eq!(err.message(), "unexpected character `$` at 2..3");
    let err = lex("\"open").unwrap_err();
    assert_eq!(err.kind, ParseErrorKind::UnexpectedEof);
    assert_eq!(err.span, Span::new(0, 5));
    let err = lex("340282366920938463463374607431768211456").unwrap_err();
    assert_eq!(err.kind, ParseErrorKind::InvalidNumber("340282366920938463463374607431768211456".to_string()));
    assert_eq!(lex("340282366920938463463374607431768211455").unwrap()[0].kind, TokenKind::Integer(u128::MAX));
}

#[test]
fn lexer_steps_token_by_token() {
    let mut lx = Lexer::new("to 7");
    assert_eq!(lx.next(), Some(Ok(Token::new(TokenKind::To, 0, 2))));
    assert_eq!(lx.next(), Some(Ok(Token::new(TokenKind::Integer(7), 3, 4))));
    assert_eq!(lx.next(), None);
}

#[test]
fn token_kind_debug_names() {
    assert_eq!(TokenKind::ThresholdVersion.debug_string(), "ThresholdVersion");
    assert_eq!(TokenKind::Ident("x".to_string()).debug_string(), "Ident(\"x\")");
    assert_eq!(TokenKind::Integer(5).debug_string(), "Integer(5)");
}

#[test]
fn parse_transfer_with_drain_and_policy() {
    let p = parse("transfer a to b amount 10 drain 2 policy p.v1;").unwrap();
    assert_eq!(p.statements.len(), 1);
    match &p.statements[0] {
        Statement::Transfer(t) => {
            assert_eq!(t.source, "a");
            assert_eq!(t.destination, "b");
            assert_eq!(t.amount, Expr::Integer(10));
            assert_eq!(t.drain, Some(Expr::Integer(2)));
            assert_eq!(t.policy, Some(Expr::Path(vec!["p".to_string(), "v1".to_string()])));
        }
        _ => panic!("expected a transfer"),
    }
}

#[test]
fn parse_vector_types_and_errors() {
    let p = parse("vector a: spatial = ();").unwrap();
    match &p.statements[0] {
        Statement::VectorDecl(v) => {
            assert_eq!(v.vector_type, VectorType::Spatial);
            assert!(v.components.is_empty());
        }
        _ => panic!("expected a vector"),
    }
    let err = parse("vector a: square = (1);").unwrap_err();
    assert_eq!(err.message(), "unknown vector type `square` at 17..18");
    let err = parse("transfer a to b amount 1 by 2;").unwrap_err();
    assert_eq!(err.message(), "unexpected token `By` at 25..27, expected `drain` or `policy` or `;`");
    let err = parse("query 5.x;").unwrap_err();
    assert_eq!(err.kind, ParseErrorKind::Message("cannot apply path access to Integer(5)".to_string()));
}

#[test]
fn parser_from_tokens() {
    let toks = lex("reconstruct a from p;").unwrap();
    let mut parser = Parser::new(toks);
    let p = parser.parse_program().unwrap();
    assert_eq!(p.statements.len(), 1);
    let mut parser = Parser::from_source("").unwrap();
    assert!(parser.parse_program().unwrap().statements.is_empty());
}

#[test]
fn expr_to_string_forms() {
    let call = Expr::Call {
        callee: "f".to_string(),
        args: vec![arg(Some("k"), Expr::String("v".to_string())), arg(None, Expr::Group(Box::new(Expr::Integer(3))))],
    };
    assert_eq!(expr_to_string(&call), "f(k=v, 3)");
    assert_eq!(expr_to_string(&Expr::Path(vec!["a".to_string(), "b".to_string()])), "a.b");
}

#[test]
fn eval_int_cases() {
    let mut env: StrMap<u128> = StrMap::new();
    env.insert("n".to_string(), 9);
    assert_eq!(eval_int(&Expr::Integer(4), &env).unwrap(), 4);
    assert_eq!(eval_int(&Expr::Group(Box::new(Expr::Ident("n".to_string()))), &env).unwrap(), 9);
    let err = eval_int(&Expr::Ident("m".to_string()), &env).unwrap_err();
    assert_eq!(err.kind, RuntimeErrorKind::UnknownSymbol("m".to_string()));
    let err = eval_int(&Expr::String("s".to_string()), &env).unwrap_err();
    assert_eq!(err.kind, RuntimeErrorKind::InvalidOperation("expected integer expression, found String(\"s\")".to_string()));
}

#[test]
fn values_and_contexts() {
    let v = value_from_expr(&Expr::Call { callee: "g".to_string(), args: vec![arg(Some("x"), Expr::Integer(1)), arg(None, Expr::Integer(2))] });
    match &v {
        Value::Dict(m) => {
            assert_eq!(m.keys, vec!["args".to_string(), "callee".to_string()]);
        }
        _ => panic!("expected a map"),
    }
    assert_eq!(value_from_expr(&Expr::Ident("id".to_string())).as_string(), Some("id"));
    assert_eq!(value_from_expr(&Expr::Integer(8)).as_int(), Some(8));
    let ctx = eval_context(&ContextExpr::new(vec![arg(Some("b"), Expr::Integer(1)), arg(None, Expr::Integer(2)), arg(Some("a"), Expr::Ident("z".to_string()))]));
    assert_eq!(ctx.fields.keys, vec!["a".to_string(), "b".to_string()]);
    assert_eq!(ctx.get("b").and_then(|x| x.as_int()), Some(1));
    let c = Context::new().with("k", Value::Int(3));
    assert_eq!(c.get("k").and_then(|x| x.as_int()), Some(3));
    assert!(c.get("j").is_none());
    let ce = ContextExpr::new(vec![arg(Some("q"), Expr::Integer(5))]);
    assert_eq!(ce.get("q"), Some(&Expr::Integer(5)));
    assert!(ce.get("r").is_none());
}

#[test]
fn vector_type_names_round_trip() {
    for t in [VectorType::Position, VectorType::Free, VectorType::Bound, VectorType::Unit, VectorType::Zero, VectorType::Spatial] {
        assert_eq!(VectorType::parse(t.as_str()), Some(t));
    }
    assert_eq!(VectorType::parse("Free"), None);
}

#[test]
fn default_threshold() {
    assert_eq!(CompilerConfig::default().certification_threshold, "0.8000");
}

fn certify_op(src: &str) -> KernelOp {
    let p = parse(src).unwrap();
    let mut unit = compile_program(&p).unwrap();
    assert_eq!(unit.ops.len(), 1);
    unit.ops.remove(0)
}

fn ratio_of(src: &str) -> (String, bool) {
    match certify_op(src) {
        KernelOp::Certify { auth_ratio, certified, .. } => (auth_ratio, certified),
        _ => panic!("expected a certification"),
    }
}

#[test]
fn auth_ratio_cases() {
    assert_eq!(ratio_of("certify a with ctx();"), ("0.5000".to_string(), false));
    assert_eq!(ratio_of("certify a with ctx(mode=1);"), ("0.9625".to_string(), true));
    assert_eq!(ratio_of("certify a with ctx(space=\"global\", op=\"transfer\", risk=\"normal\");"), ("1.0000".to_string(), true));
    assert_eq!(ratio_of("certify a with ctx(op=\"\", space=\" \", risk=\"high\");"), ("0.6750".to_string(), false));
    assert_eq!(ratio_of("certify a with ctx(risk=high);"), ("0.9125".to_string(), true));
    assert_eq!(ratio_of("certify a with ctx(op=\"x\", space=\"\");"), ("0.8750".to_string(), true));
    assert_eq!(ratio_of("certify a with ctx(op=5);"), ("0.9625".to_string(), true));
    match certify_op("certify a with ctx(level=2, mode=\"a\");") {
        KernelOp::Certify { target, context, .. } => {
            assert_eq!(target, "a");
            assert_eq!(context, "ctx(level=Int(2), mode=String(\"a\"))");
        }
        _ => panic!("expected a certification"),
    }
}

#[test]
fn compile_projections_are_numbered() {
    let p = parse("project a into e amount 1;\nproject a into e amount 2 policy q;\ndrain a by 3;").unwrap();
    let unit = compile_program(&p).unwrap();
    assert_eq!(
        unit.ops,
        vec![
            KernelOp::Project { source: "a".to_string(), environment: "e".to_string(), amount: 1, policy: None, projection_id: "proj_001".to_string() },
            KernelOp::Project { source: "a".to_string(), environment: "e".to_string(), amount: 2, policy: Some("q".to_string()), projection_id: "proj_002".to_string() },
            KernelOp::Drain { target: "a".to_string(), amount: 3 },
        ]
    );
}

#[test]
fn compile_contracts_and_errors() {
    let p = parse("contract c { action go(x=1, 2); action stop; }").unwrap();
    let unit = compile_program(&p).unwrap();
    assert_eq!(
        unit.ops,
        vec![
            KernelOp::Contract { name: "c".to_string(), actions: vec!["go(x=1, 2)".to_string(), "stop()".to_string()] },
            KernelOp::ContractAction { contract: "c".to_string(), action: "go".to_string(), args: vec!["x=1".to_string(), "2".to_string()] },
            KernelOp::ContractAction { contract: "c".to_string(), action: "stop".to_string(), args: vec![] },
        ]
    );
    let p = parse("drain a by n;").unwrap();
    let err = compile_program(&p).unwrap_err();
    assert_eq!(err.kind, RuntimeErrorKind::UnknownSymbol("n".to_string()));
}

#[test]
fn lexed_spans_are_ordered() {
    let src = "contract c { action go(x=\"a b\", 12); } # end";
    let toks = lex(src).unwrap();
    let n = toks.len();
    assert_eq!(toks[n - 1], Token::new(TokenKind::Eof, src.len(), src.len()));
    for i in 0..n - 1 {
        assert!(toks[i].start < toks[i].end);
        assert!(toks[i].end <= src.len());
        assert!(toks[i].kind != TokenKind::Eof);
        if i + 1 < n - 1 {
            assert!(toks[i].end <= toks[i + 1].start);
        }
    }
}

#[test]
fn keywords_name_arguments() {
    let p = parse("query f(op=1, as=2, with);").unwrap_err();
    assert_eq!(p.message(), "unexpected token `With` at 20..24, expected expression");
    let p = parse("certify a with ctx(threshold_version=3, x);").unwrap();
    match &p.statements[0] {
        Statement::Certify(c) => {
            assert_eq!(c.context.args[0].name, Some("threshold_version".to_string()));
            assert_eq!(c.context.args[1].name, None);
        }
        _ => panic!("expected a certification"),
    }
}

#[test]
fn debug_text_escapes_like_rust() {
    let env: StrMap<u128> = StrMap::new();
    let e = Expr::String("a\u{200b}b\u{301}é'".to_string());
    let err = eval_int(&e, &env).unwrap_err();
    assert_eq!(err.kind, RuntimeErrorKind::InvalidOperation(format!("expected integer expression, found {:?}", e)));
    assert_eq!(
        err.kind,
        RuntimeErrorKind::InvalidOperation("expected integer expression, found String(\"a\\u{200b}b\\u{301}é'\")".to_string())
    );
    match compile_program(&parse("certify a with ctx(note=\"x\u{200b}\");").unwrap()).unwrap().ops.remove(0) {
        // the lexer reads a string byte by byte, each byte as one character
        KernelOp::Certify { context, .. } => {
            assert_eq!(context, format!("ctx(note=String({:?}))", "x\u{e2}\u{80}\u{8b}"));
            assert_eq!(context, "ctx(note=String(\"x\u{e2}\\u{80}\\u{8b}\"))");
        }
        _ => panic!("expected a certification"),
    }
}

#[test]
fn context_is_the_map_of_named_values() {
    let e = ContextExpr::new(vec![
        arg(Some("k"), Expr::Integer(1)),
        arg(None, Expr::Integer(7)),
        arg(Some("k"), Expr::Integer(2)),
        arg(Some("a"), Expr::Ident("z".to_string())),
    ]);
    let m = e.as_map();
    assert_eq!(m.keys, vec!["a".to_string(), "k".to_string()]);
    assert_eq!(m.get("k"), Some(&Expr::Integer(2)));
    assert_eq!(e.get("k"), Some(&Expr::Integer(1)));
    let ctx = eval_context(&e);
    assert_eq!(ctx.fields.keys, m.keys);
    assert_eq!(ctx.get("k").and_then(|v| v.as_int()), Some(2));
    assert_eq!(ctx.get("a").and_then(|v| v.as_string()), Some("z"));
}
