use v_langx::error::{ParseError, ParseErrorKind, RuntimeError, RuntimeErrorKind, Span};

fn msg(kind: RuntimeErrorKind) -> String {
    RuntimeError::new(kind).message()
}

#[test]
fn runtime_error_messages() {
    assert_eq!(
        msg(RuntimeErrorKind::Parse(ParseErrorKind::InvalidNumber("9x".to_string()))),
        "parse error: InvalidNumber(\"9x\")"
    );
    assert_eq!(msg(RuntimeErrorKind::DuplicateSymbol("a".to_string())), "duplicate symbol `a`");
    assert_eq!(
        msg(RuntimeErrorKind::TypeMismatch { expected: "unit".to_string(), found: "free".to_string() }),
        "type mismatch: expected unit, found free"
    );
    assert_eq!(msg(RuntimeErrorKind::Validation("bad".to_string())), "validation failed: bad");
    assert_eq!(
        msg(RuntimeErrorKind::InsufficientBalance { name: "a".to_string(), requested: 5, available: 2 }),
        "insufficient balance in `a`: requested 5, available 2"
    );
    assert_eq!(
        msg(RuntimeErrorKind::CertificationFailed {
            name: "a".to_string(),
            ratio: "0.5000".to_string(),
            threshold: "0.8000".to_string()
        }),
        "certification failed for `a`: ratio 0.5000 below threshold 0.8000"
    );
    assert_eq!(msg(RuntimeErrorKind::ProjectionMissing("p".to_string())), "projection `p` not found");
    assert_eq!(msg(RuntimeErrorKind::ProjectionConsumed("p".to_string())), "projection `p` was already consumed");
    assert_eq!(msg(RuntimeErrorKind::ContractMissing("c".to_string())), "contract `c` not found");
    assert_eq!(msg(RuntimeErrorKind::RecordMissing("r".to_string())), "record `r` not found");
    assert_eq!(msg(RuntimeErrorKind::ImmutableViolation("x".to_string())), "immutable violation: x");
    assert_eq!(msg(RuntimeErrorKind::ZeroNormalization), "normalization of the zero vector is undefined");
}

#[test]
fn runtime_error_spans() {
    let e = RuntimeError::with_span(RuntimeErrorKind::ZeroNormalization, Span::new(1, 4));
    assert_eq!(e.span, Some(Span::new(1, 4)));
    assert_eq!(RuntimeError::new(RuntimeErrorKind::ZeroNormalization).span, None);
}

#[test]
fn parse_error_messages() {
    let e = ParseError::new(Span::new(3, 7), ParseErrorKind::InvalidString("q".to_string()));
    assert_eq!(e.message(), "invalid string `q` at 3..7");
    let e = ParseError::new(Span::new(0, 0), ParseErrorKind::UnexpectedEof);
    assert_eq!(e.message(), "unexpected end of file at 0..0");
    let e = ParseError::new(Span::new(1, 2), ParseErrorKind::UnexpectedToken { expected: "`;`", found: "Comma".to_string() });
    assert_eq!(e.message(), "unexpected token `Comma` at 1..2, expected `;`");
    assert_eq!(
        ParseErrorKind::UnexpectedToken { expected: "x", found: "y".to_string() }.debug_string(),
        "UnexpectedToken { expected: \"x\", found: \"y\" }"
    );
}
