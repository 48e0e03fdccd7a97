//! The parser: tokens to a program, by recursive descent.
use vstd::prelude::*;
use crate::ast::{Expr, ExprView, NamedArg, NamedArgView, VectorType, vector_type_named, expr_debug, Program,
    Statement, StatementView, ContractAction, ContractActionView, VectorDecl, WalletDecl, CertifyStmt,
    TransferStmt, DrainStmt, ProjectStmt, ReconstructStmt, QueryStmt, RecordStmt, ContractDecl, ContextExpr,
    args_view, opt_expr_view, lemma_args_view};
use crate::error::{ParseError, ParseErrorKind, ParseErrorKindView, ParseErrorView, Span};
use crate::lexer::{lex, lex_spec, perr};
use crate::token::{Token, TokenKind, TokenKindView, TokenView, token_kind_debug, token_views, keyword_name,
    keyword_word};
use crate::text::{dec, debug_str, push_str, u128_to_string, owned};

verus! {

/// `Debug` of a token kind, from its view.
pub open spec fn kind_debug(k: TokenKindView) -> Seq<char> {
    match k {
        TokenKindView::Kind(k) => token_kind_debug(k),
        TokenKindView::Str(s) => "String("@ + debug_str(s) + ")"@,
        TokenKindView::Ident(s) => "Ident("@ + debug_str(s) + ")"@,
    }
}

/// Whether the token at `i` is of the text-free kind `k`.
pub open spec fn is_at(t: Seq<TokenView>, i: int, k: TokenKind) -> bool {
    t[i].kind == TokenKindView::Kind(k)
}

/// An error at the token at `i`.
pub open spec fn error_at(t: Seq<TokenView>, i: int, k: ParseErrorKindView) -> ParseErrorView {
    ParseErrorView { span: Span { start: t[i].start, end: t[i].end }, kind: k }
}

/// "Expected `expected`" at the token at `i`.
pub open spec fn unexpected(t: Seq<TokenView>, i: int, expected: Seq<char>) -> ParseErrorView {
    error_at(t, i, ParseErrorKindView::UnexpectedToken { expected, found: kind_debug(t[i].kind) })
}

/// The error for a position outside the tokens (never reached from a
/// well-formed parser).
pub open spec fn out_of_range() -> ParseErrorView {
    perr(ParseErrorKindView::UnexpectedEof, 0, 0)
}

pub open spec fn in_range(t: Seq<TokenView>, i: int) -> bool {
    0 <= i < t.len()
}

/// Consumes a token of kind `k`.
pub open spec fn p_expect(t: Seq<TokenView>, i: int, k: TokenKind, expected: Seq<char>) -> Result<int, ParseErrorView> {
    if !in_range(t, i) {
        Err(out_of_range())
    } else if is_at(t, i, k) {
        Ok(i + 1)
    } else {
        Err(unexpected(t, i, expected))
    }
}

/// Consumes an identifier.
pub open spec fn p_ident(t: Seq<TokenView>, i: int) -> Result<(Seq<char>, int), ParseErrorView> {
    if !in_range(t, i) {
        Err(out_of_range())
    } else {
        match t[i].kind {
            TokenKindView::Ident(s) => Ok((s, i + 1)),
            _ => Err(unexpected(t, i, "identifier"@)),
        }
    }
}

/// Consumes a string, an identifier or a number (as its decimal text).
pub open spec fn p_string_like(t: Seq<TokenView>, i: int) -> Result<(Seq<char>, int), ParseErrorView> {
    if !in_range(t, i) {
        Err(out_of_range())
    } else {
        match t[i].kind {
            TokenKindView::Str(s) => Ok((s, i + 1)),
            TokenKindView::Ident(s) => Ok((s, i + 1)),
            TokenKindView::Kind(TokenKind::Integer(v)) => Ok((dec(v as nat), i + 1)),
            _ => Err(unexpected(t, i, "string or identifier"@)),
        }
    }
}

/// Consumes a number.
pub open spec fn p_integer(t: Seq<TokenView>, i: int) -> Result<(u128, int), ParseErrorView> {
    if !in_range(t, i) {
        Err(out_of_range())
    } else {
        match t[i].kind {
            TokenKindView::Kind(TokenKind::Integer(v)) => Ok((v, i + 1)),
            _ => Err(unexpected(t, i, "integer"@)),
        }
    }
}

/// Consumes the name of a vector type.
pub open spec fn p_vector_type(t: Seq<TokenView>, i: int) -> Result<(VectorType, int), ParseErrorView> {
    match p_ident(t, i) {
        Ok((name, j)) => match vector_type_named(name) {
            Some(ty) => Ok((ty, j)),
            None => if in_range(t, j) {
                Err(error_at(t, j, ParseErrorKindView::Message("unknown vector type `"@ + name + "`"@)))
            } else {
                Err(out_of_range())
            },
        },
        Err(e) => Err(e),
    }
}

/// The numbers of a vector literal, from its first number on.
pub open spec fn p_components(t: Seq<TokenView>, i: int) -> Result<(Seq<u128>, int), ParseErrorView>
    decreases t.len() - i,
{
    match p_integer(t, i) {
        Ok((v, j)) => if in_range(t, j) && is_at(t, j, TokenKind::Comma) {
            match p_components(t, j + 1) {
                Ok((vs, k)) => Ok((seq![v] + vs, k)),
                Err(e) => Err(e),
            }
        } else {
            Ok((seq![v], j))
        },
        Err(e) => Err(e),
    }
}

/// A vector literal: `(n, ...)`.
pub open spec fn p_vector_literal(t: Seq<TokenView>, i: int) -> Result<(Seq<u128>, int), ParseErrorView> {
    match p_expect(t, i, TokenKind::LParen, "`(`"@) {
        Ok(j) => {
            let items = if in_range(t, j) && !is_at(t, j, TokenKind::RParen) {
                p_components(t, j)
            } else {
                Ok((Seq::<u128>::empty(), j))
            };
            match items {
                Ok((vs, k)) => match p_expect(t, k, TokenKind::RParen, "`)`"@) {
                    Ok(l) => Ok((vs, l)),
                    Err(e) => Err(e),
                },
                Err(e) => Err(e),
            }
        },
        Err(e) => Err(e),
    }
}

/// `.name` suffixes after a primary expression.
pub open spec fn p_postfix(t: Seq<TokenView>, e: ExprView, j: int) -> Result<(ExprView, int), ParseErrorView>
    decreases t.len() - j,
{
    if !in_range(t, j) {
        Err(out_of_range())
    } else if is_at(t, j, TokenKind::Dot) {
        match p_ident(t, j + 1) {
            Ok((part, k)) => match e {
                ExprView::Ident(first) => p_postfix(t, ExprView::Path(seq![first, part]), k),
                ExprView::Path(parts) => p_postfix(t, ExprView::Path(parts.push(part)), k),
                other => if in_range(t, k) {
                    Err(error_at(t, k, ParseErrorKindView::Message("cannot apply path access to "@ + expr_debug(other))))
                } else {
                    Err(out_of_range())
                },
            },
            Err(err) => Err(err),
        }
    } else {
        Ok((e, j))
    }
}

/// An expression: a primary expression and its `.name` suffixes.
pub open spec fn p_expr(t: Seq<TokenView>, i: int) -> Result<(ExprView, int), ParseErrorView>
    decreases t.len() - i, 2int,
{
    if !in_range(t, i) {
        Err(out_of_range())
    } else {
        match p_primary(t, i) {
            Ok((e, j)) => if i <= j { p_postfix(t, e, j) } else { Err(out_of_range()) },
            Err(err) => Err(err),
        }
    }
}

/// A number, a string, an identifier, a call or a parenthesized expression.
pub open spec fn p_primary(t: Seq<TokenView>, i: int) -> Result<(ExprView, int), ParseErrorView>
    decreases t.len() - i, 1int,
{
    if !in_range(t, i) {
        Err(out_of_range())
    } else {
        match t[i].kind {
            TokenKindView::Kind(TokenKind::Integer(v)) => Ok((ExprView::Integer(v), i + 1)),
            TokenKindView::Str(s) => Ok((ExprView::String(s), i + 1)),
            TokenKindView::Ident(name) => if in_range(t, i + 1) && is_at(t, i + 1, TokenKind::LParen) {
                match p_named_args(t, i + 2, TokenKind::RParen) {
                    Ok((args, k)) => match p_expect(t, k, TokenKind::RParen, "`)`"@) {
                        Ok(l) => Ok((ExprView::Call { callee: name, args }, l)),
                        Err(e) => Err(e),
                    },
                    Err(e) => Err(e),
                }
            } else {
                Ok((ExprView::Ident(name), i + 1))
            },
            TokenKindView::Kind(TokenKind::LParen) => match p_expr(t, i + 1) {
                Ok((e, k)) => match p_expect(t, k, TokenKind::RParen, "`)`"@) {
                    Ok(l) => Ok((ExprView::Group(Box::new(e)), l)),
                    Err(err) => Err(err),
                },
                Err(err) => Err(err),
            },
            _ => Err(unexpected(t, i, "expression"@)),
        }
    }
}

/// Arguments up to the terminator: none if it comes first, else one or more.
pub open spec fn p_named_args(t: Seq<TokenView>, i: int, term: TokenKind) -> Result<(Seq<NamedArgView>, int), ParseErrorView>
    decreases t.len() - i, 5int,
{
    if !in_range(t, i) {
        Err(out_of_range())
    } else if is_at(t, i, term) {
        Ok((Seq::empty(), i))
    } else {
        p_args(t, i, term)
    }
}

/// One argument: `name = expr` or `expr`.
pub open spec fn p_arg(t: Seq<TokenView>, i: int) -> Result<(NamedArgView, int), ParseErrorView>
    decreases t.len() - i, 3int,
{
    if !in_range(t, i) {
        Err(out_of_range())
    } else {
        match t[i].kind {
            TokenKindView::Ident(name) => if in_range(t, i + 1) && is_at(t, i + 1, TokenKind::Eq) {
                match p_expr(t, i + 2) {
                    Ok((v, k)) => Ok((NamedArgView { name: Some(name), value: v }, k)),
                    Err(e) => Err(e),
                }
            } else {
                match p_expr(t, i) {
                    Ok((v, k)) => Ok((NamedArgView { name: None, value: v }, k)),
                    Err(e) => Err(e),
                }
            },
            TokenKindView::Kind(kw) => if keyword_name(kw) is Some && in_range(t, i + 1) && is_at(t, i + 1,
                TokenKind::Eq) {
                match p_expr(t, i + 2) {
                    Ok((v, k)) => Ok((NamedArgView { name: keyword_name(kw), value: v }, k)),
                    Err(e) => Err(e),
                }
            } else {
                match p_expr(t, i) {
                    Ok((v, k)) => Ok((NamedArgView { name: None, value: v }, k)),
                    Err(e) => Err(e),
                }
            },
            _ => match p_expr(t, i) {
                Ok((v, k)) => Ok((NamedArgView { name: None, value: v }, k)),
                Err(e) => Err(e),
            },
        }
    }
}

/// Arguments separated by commas; a comma followed by the terminator ends
/// the list.
pub open spec fn p_args(t: Seq<TokenView>, i: int, term: TokenKind) -> Result<(Seq<NamedArgView>, int), ParseErrorView>
    decreases t.len() - i, 4int,
{
    if !in_range(t, i) {
        Err(out_of_range())
    } else {
        match p_arg(t, i) {
            Ok((a, k)) => if in_range(t, k) && is_at(t, k, TokenKind::Comma) {
                if in_range(t, k + 1) && is_at(t, k + 1, term) {
                    Ok((seq![a], k + 1))
                } else if i <= k {
                    match p_args(t, k + 1, term) {
                        Ok((rest, l)) => Ok((seq![a] + rest, l)),
                        Err(e) => Err(e),
                    }
                } else {
                    Err(out_of_range())
                }
            } else {
                Ok((seq![a], k))
            },
            Err(e) => Err(e),
        }
    }
}

} // verus!
verus! {

/// `ctx(args)`.
pub open spec fn p_context(t: Seq<TokenView>, i: int) -> Result<(Seq<NamedArgView>, int), ParseErrorView> {
    if !in_range(t, i) {
        Err(out_of_range())
    } else if !is_at(t, i, TokenKind::Ctx) {
        Err(unexpected(t, i, "ctx(...)"@))
    } else {
        match p_expect(t, i + 1, TokenKind::LParen, "`(`"@) {
            Ok(j) => match p_named_args(t, j, TokenKind::RParen) {
                Ok((args, k)) => match p_expect(t, k, TokenKind::RParen, "`)`"@) {
                    Ok(l) => Ok((args, l)),
                    Err(e) => Err(e),
                },
                Err(e) => Err(e),
            },
            Err(e) => Err(e),
        }
    }
}

/// `action name(args);` or `action name;`.
pub open spec fn p_action(t: Seq<TokenView>, i: int) -> Result<(ContractActionView, int), ParseErrorView> {
    match p_expect(t, i, TokenKind::Action, "`action`"@) {
        Ok(j) => match p_ident(t, j) {
            Ok((name, k)) => {
                let args = if in_range(t, k) && is_at(t, k, TokenKind::LParen) {
                    match p_named_args(t, k + 1, TokenKind::RParen) {
                        Ok((args, l)) => match p_expect(t, l, TokenKind::RParen, "`)`"@) {
                            Ok(m) => Ok((args, m)),
                            Err(e) => Err(e),
                        },
                        Err(e) => Err(e),
                    }
                } else {
                    Ok((Seq::<NamedArgView>::empty(), k))
                };
                match args {
                    Ok((args, l)) => match p_expect(t, l, TokenKind::Semi, "`;`"@) {
                        Ok(m) => Ok((ContractActionView { name, args }, m)),
                        Err(e) => Err(e),
                    },
                    Err(e) => Err(e),
                }
            },
            Err(e) => Err(e),
        },
        Err(e) => Err(e),
    }
}

/// Actions up to the closing brace (not consumed).
pub open spec fn p_actions(t: Seq<TokenView>, i: int) -> Result<(Seq<ContractActionView>, int), ParseErrorView>
    decreases t.len() - i,
{
    if !in_range(t, i) {
        Err(out_of_range())
    } else if is_at(t, i, TokenKind::RBrace) {
        Ok((Seq::empty(), i))
    } else {
        match p_action(t, i) {
            Ok((a, j)) => if i < j {
                match p_actions(t, j) {
                    Ok((rest, k)) => Ok((seq![a] + rest, k)),
                    Err(e) => Err(e),
                }
            } else {
                Err(out_of_range())
            },
            Err(e) => Err(e),
        }
    }
}

/// The `drain` and `policy` clauses of a transfer, up to the `;` (not
/// consumed); a later clause of the same kind replaces an earlier one.
pub open spec fn p_transfer_tail(t: Seq<TokenView>, i: int, drain: Option<ExprView>, policy: Option<ExprView>)
    -> Result<(Option<ExprView>, Option<ExprView>, int), ParseErrorView>
    decreases t.len() - i,
{
    if !in_range(t, i) {
        Err(out_of_range())
    } else if is_at(t, i, TokenKind::Semi) {
        Ok((drain, policy, i))
    } else if is_at(t, i, TokenKind::Drain) || is_at(t, i, TokenKind::Policy) {
        match p_expr(t, i + 1) {
            Ok((e, k)) => if i < k <= t.len() {
                if is_at(t, i, TokenKind::Drain) {
                    p_transfer_tail(t, k, Some(e), policy)
                } else {
                    p_transfer_tail(t, k, drain, Some(e))
                }
            } else {
                Err(out_of_range())
            },
            Err(err) => Err(err),
        }
    } else {
        Err(unexpected(t, i, "`drain` or `policy` or `;`"@))
    }
}

/// The `policy` clauses of a projection, up to the `;` (not consumed).
pub open spec fn p_project_tail(t: Seq<TokenView>, i: int, policy: Option<ExprView>)
    -> Result<(Option<ExprView>, int), ParseErrorView>
    decreases t.len() - i,
{
    if !in_range(t, i) {
        Err(out_of_range())
    } else if is_at(t, i, TokenKind::Semi) {
        Ok((policy, i))
    } else if is_at(t, i, TokenKind::Policy) {
        match p_expr(t, i + 1) {
            Ok((e, k)) => if i < k <= t.len() { p_project_tail(t, k, Some(e)) } else { Err(out_of_range()) },
            Err(err) => Err(err),
        }
    } else {
        Err(unexpected(t, i, "`policy` or `;`"@))
    }
}

/// Keyword `k` (error "`expected`" otherwise), then an identifier.
pub open spec fn p_word_ident(t: Seq<TokenView>, i: int, k: TokenKind, expected: Seq<char>)
    -> Result<(Seq<char>, int), ParseErrorView>
{
    match p_expect(t, i, k, expected) {
        Ok(j) => p_ident(t, j),
        Err(e) => Err(e),
    }
}

/// The rest of a `vector` statement, after its keyword.
pub open spec fn p_vector_decl(t: Seq<TokenView>, i: int) -> Result<(StatementView, int), ParseErrorView> {
    match p_ident(t, i) {
        Ok((name, j)) => match p_expect(t, j, TokenKind::Colon, "`:`"@) {
            Ok(k) => match p_vector_type(t, k) {
                Ok((vector_type, l)) => match p_expect(t, l, TokenKind::Eq, "`=`"@) {
                    Ok(m) => match p_vector_literal(t, m) {
                        Ok((components, n)) => match p_expect(t, n, TokenKind::Semi, "`;`"@) {
                            Ok(o) => Ok((StatementView::VectorDecl { name, vector_type, components }, o)),
                            Err(e) => Err(e),
                        },
                        Err(e) => Err(e),
                    },
                    Err(e) => Err(e),
                },
                Err(e) => Err(e),
            },
            Err(e) => Err(e),
        },
        Err(e) => Err(e),
    }
}

/// The rest of a `wallet` statement, after its keyword.
pub open spec fn p_wallet_decl(t: Seq<TokenView>, i: int) -> Result<(StatementView, int), ParseErrorView> {
    match p_ident(t, i) {
        Ok((name, j)) => match p_expect(t, j, TokenKind::Eq, "`=`"@) {
            Ok(k) => match p_expect(t, k, TokenKind::Bind, "bind(...)"@) {
                Ok(l) => match p_expect(t, l, TokenKind::LParen, "`(`"@) {
                    Ok(m) => match p_string_like(t, m) {
                        Ok((public_key, n)) => match p_expect(t, n, TokenKind::RParen, "`)`"@) {
                            Ok(o) => match p_expect(t, o, TokenKind::Semi, "`;`"@) {
                                Ok(q) => Ok((StatementView::WalletDecl { name, public_key }, q)),
                                Err(e) => Err(e),
                            },
                            Err(e) => Err(e),
                        },
                        Err(e) => Err(e),
                    },
                    Err(e) => Err(e),
                },
                Err(e) => Err(e),
            },
            Err(e) => Err(e),
        },
        Err(e) => Err(e),
    }
}

/// The rest of a `certify` statement, after its keyword.
pub open spec fn p_certify(t: Seq<TokenView>, i: int) -> Result<(StatementView, int), ParseErrorView> {
    match p_ident(t, i) {
        Ok((target, j)) => match p_expect(t, j, TokenKind::With, "with ctx(...)"@) {
            Ok(k) => match p_context(t, k) {
                Ok((context, l)) => match p_expect(t, l, TokenKind::Semi, "`;`"@) {
                    Ok(m) => Ok((StatementView::Certify { target, context }, m)),
                    Err(e) => Err(e),
                },
                Err(e) => Err(e),
            },
            Err(e) => Err(e),
        },
        Err(e) => Err(e),
    }
}

/// The rest of a `transfer` statement, after its keyword.
pub open spec fn p_transfer(t: Seq<TokenView>, i: int) -> Result<(StatementView, int), ParseErrorView> {
    match p_ident(t, i) {
        Ok((source, j)) => match p_word_ident(t, j, TokenKind::To, "to"@) {
            Ok((destination, k)) => match p_expect(t, k, TokenKind::Amount, "amount"@) {
                Ok(l) => match p_expr(t, l) {
                    Ok((amount, m)) => match p_transfer_tail(t, m, None, None) {
                        Ok((drain, policy, n)) => match p_expect(t, n, TokenKind::Semi, "`;`"@) {
                            Ok(o) => Ok((StatementView::Transfer { source, destination, amount, drain, policy }, o)),
                            Err(e) => Err(e),
                        },
                        Err(e) => Err(e),
                    },
                    Err(e) => Err(e),
                },
                Err(e) => Err(e),
            },
            Err(e) => Err(e),
        },
        Err(e) => Err(e),
    }
}

/// The rest of a `drain` statement, after its keyword.
pub open spec fn p_drain(t: Seq<TokenView>, i: int) -> Result<(StatementView, int), ParseErrorView> {
    match p_ident(t, i) {
        Ok((target, j)) => match p_expect(t, j, TokenKind::By, "by"@) {
            Ok(k) => match p_expr(t, k) {
                Ok((amount, l)) => match p_expect(t, l, TokenKind::Semi, "`;`"@) {
                    Ok(m) => Ok((StatementView::Drain { target, amount }, m)),
                    Err(e) => Err(e),
                },
                Err(e) => Err(e),
            },
            Err(e) => Err(e),
        },
        Err(e) => Err(e),
    }
}

/// The rest of a `project` statement, after its keyword.
pub open spec fn p_project(t: Seq<TokenView>, i: int) -> Result<(StatementView, int), ParseErrorView> {
    match p_ident(t, i) {
        Ok((source, j)) => match p_word_ident(t, j, TokenKind::Into, "into"@) {
            Ok((environment, k)) => match p_expect(t, k, TokenKind::Amount, "amount"@) {
                Ok(l) => match p_expr(t, l) {
                    Ok((amount, m)) => match p_project_tail(t, m, None) {
                        Ok((policy, n)) => match p_expect(t, n, TokenKind::Semi, "`;`"@) {
                            Ok(o) => Ok((StatementView::Project { source, environment, amount, policy }, o)),
                            Err(e) => Err(e),
                        },
                        Err(e) => Err(e),
                    },
                    Err(e) => Err(e),
                },
                Err(e) => Err(e),
            },
            Err(e) => Err(e),
        },
        Err(e) => Err(e),
    }
}

/// The rest of a `reconstruct` statement, after its keyword.
pub open spec fn p_reconstruct(t: Seq<TokenView>, i: int) -> Result<(StatementView, int), ParseErrorView> {
    match p_ident(t, i) {
        Ok((target, j)) => match p_word_ident(t, j, TokenKind::From, "from"@) {
            Ok((projection_id, k)) => match p_expect(t, k, TokenKind::Semi, "`;`"@) {
                Ok(l) => Ok((StatementView::Reconstruct { target, projection_id }, l)),
                Err(e) => Err(e),
            },
            Err(e) => Err(e),
        },
        Err(e) => Err(e),
    }
}

/// The rest of a `contract` statement, after its keyword.
pub open spec fn p_contract(t: Seq<TokenView>, i: int) -> Result<(StatementView, int), ParseErrorView> {
    match p_ident(t, i) {
        Ok((name, j)) => match p_expect(t, j, TokenKind::LBrace, "`{`"@) {
            Ok(k) => match p_actions(t, k) {
                Ok((actions, l)) => match p_expect(t, l, TokenKind::RBrace, "`}`"@) {
                    Ok(m) => Ok((StatementView::Contract { name, actions }, m)),
                    Err(e) => Err(e),
                },
                Err(e) => Err(e),
            },
            Err(e) => Err(e),
        },
        Err(e) => Err(e),
    }
}

/// A statement, by its first token.
pub open spec fn p_statement(t: Seq<TokenView>, i: int) -> Result<(StatementView, int), ParseErrorView> {
    if !in_range(t, i) {
        Err(out_of_range())
    } else if is_at(t, i, TokenKind::Vector) {
        p_vector_decl(t, i + 1)
    } else if is_at(t, i, TokenKind::Wallet) {
        p_wallet_decl(t, i + 1)
    } else if is_at(t, i, TokenKind::Certify) {
        p_certify(t, i + 1)
    } else if is_at(t, i, TokenKind::Transfer) {
        p_transfer(t, i + 1)
    } else if is_at(t, i, TokenKind::Drain) {
        p_drain(t, i + 1)
    } else if is_at(t, i, TokenKind::Project) {
        p_project(t, i + 1)
    } else if is_at(t, i, TokenKind::Reconstruct) {
        p_reconstruct(t, i + 1)
    } else if is_at(t, i, TokenKind::Query) || is_at(t, i, TokenKind::Record) {
        match p_expr(t, i + 1) {
            Ok((expr, j)) => match p_expect(t, j, TokenKind::Semi, "`;`"@) {
                Ok(k) => if is_at(t, i, TokenKind::Query) {
                    Ok((StatementView::Query { expr }, k))
                } else {
                    Ok((StatementView::Record { expr }, k))
                },
                Err(e) => Err(e),
            },
            Err(e) => Err(e),
        }
    } else if is_at(t, i, TokenKind::Contract) {
        p_contract(t, i + 1)
    } else {
        Err(unexpected(t, i, "statement"@))
    }
}

/// Statements up to the end of the tokens.
pub open spec fn p_program(t: Seq<TokenView>, i: int) -> Result<Seq<StatementView>, ParseErrorView>
    decreases t.len() - i,
{
    if !in_range(t, i) {
        Err(out_of_range())
    } else if is_at(t, i, TokenKind::Eof) {
        Ok(Seq::empty())
    } else {
        match p_statement(t, i) {
            Ok((s, j)) => if i < j {
                match p_program(t, j) {
                    Ok(rest) => Ok(seq![s] + rest),
                    Err(e) => Err(e),
                }
            } else {
                Err(out_of_range())
            },
            Err(e) => Err(e),
        }
    }
}

/// The program that a source denotes, or the first lexical or syntax error.
pub open spec fn parse_spec(src: Seq<char>) -> Result<Seq<StatementView>, ParseErrorView> {
    match lex_spec(vstd::utf8::encode_utf8(src)) {
        Ok(t) => p_program(t, 0),
        Err(e) => Err(e),
    }
}

} // verus!
verus! {

pub proof fn lemma_postfix_progress(t: Seq<TokenView>, e: ExprView, j: int)
    ensures
        p_postfix(t, e, j) matches Ok((e2, k)) ==> j <= k <= t.len(),
    decreases t.len() - j,
{
    if in_range(t, j) && is_at(t, j, TokenKind::Dot) {
        match p_ident(t, j + 1) {
            Ok((part, k)) => match e {
                ExprView::Ident(first) => lemma_postfix_progress(t, ExprView::Path(seq![first, part]), k),
                ExprView::Path(parts) => lemma_postfix_progress(t, ExprView::Path(parts.push(part)), k),
                _ => {},
            },
            Err(_) => {},
        }
    }
}

pub proof fn lemma_expr_progress(t: Seq<TokenView>, i: int)
    ensures
        p_expr(t, i) matches Ok((e, j)) ==> i < j <= t.len(),
    decreases t.len() - i, 2int,
{
    if in_range(t, i) {
        lemma_primary_progress(t, i);
        match p_primary(t, i) {
            Ok((e, j)) => lemma_postfix_progress(t, e, j),
            Err(_) => {},
        }
    }
}

pub proof fn lemma_primary_progress(t: Seq<TokenView>, i: int)
    ensures
        p_primary(t, i) matches Ok((e, j)) ==> i < j <= t.len(),
    decreases t.len() - i, 1int,
{
    if in_range(t, i) {
        match t[i].kind {
            TokenKindView::Ident(name) => if in_range(t, i + 1) && is_at(t, i + 1, TokenKind::LParen) {
                lemma_named_args_progress(t, i + 2, TokenKind::RParen);
            },
            TokenKindView::Kind(TokenKind::LParen) => lemma_expr_progress(t, i + 1),
            _ => {},
        }
    }
}

pub proof fn lemma_named_args_progress(t: Seq<TokenView>, i: int, term: TokenKind)
    ensures
        p_named_args(t, i, term) matches Ok((a, j)) ==> i <= j <= t.len(),
    decreases t.len() - i, 5int,
{
    if in_range(t, i) && !is_at(t, i, term) {
        lemma_args_progress(t, i, term);
    }
}

pub proof fn lemma_arg_progress(t: Seq<TokenView>, i: int)
    ensures
        p_arg(t, i) matches Ok((a, j)) ==> i < j <= t.len(),
    decreases t.len() - i, 3int,
{
    if in_range(t, i) {
        lemma_expr_progress(t, i);
        match t[i].kind {
            TokenKindView::Ident(name) => if in_range(t, i + 1) && is_at(t, i + 1, TokenKind::Eq) {
                lemma_expr_progress(t, i + 2);
            },
            TokenKindView::Kind(kw) => if in_range(t, i + 1) && is_at(t, i + 1, TokenKind::Eq) {
                lemma_expr_progress(t, i + 2);
            },
            _ => {},
        }
    }
}

pub proof fn lemma_args_progress(t: Seq<TokenView>, i: int, term: TokenKind)
    ensures
        p_args(t, i, term) matches Ok((a, j)) ==> i < j <= t.len(),
    decreases t.len() - i, 4int,
{
    if in_range(t, i) {
        lemma_arg_progress(t, i);
        match p_arg(t, i) {
            Ok((a, k)) => if in_range(t, k) && is_at(t, k, TokenKind::Comma) && !(in_range(t, k + 1) && is_at(t, k + 1, term)) {
                lemma_args_progress(t, k + 1, term);
            },
            Err(_) => {},
        }
    }
}

} // verus!
verus! {

/// An executable result agrees with a parse specification: the same value
/// (by view) and the position reached, or the same error.
pub open spec fn agrees<T: View>(r: Result<T, ParseError>, s: Result<(T::V, int), ParseErrorView>, fin: int) -> bool {
    match s {
        Ok((v, j)) => r matches Ok(x) && x@ == v && fin == j,
        Err(e) => r matches Err(x) && x@ == e,
    }
}

pub proof fn lemma_kind_debug(k: TokenKind)
    ensures
        kind_debug(k@) == token_kind_debug(k),
{
}

#[derive(Debug, Clone)]
pub struct Parser {
    tokens: Vec<Token>,
    index: usize,
}

impl Parser {
    /// The tokens, by their views.
    pub closed spec fn toks(&self) -> Seq<TokenView> {
        token_views(self.tokens@)
    }

    /// The position of the current token.
    pub closed spec fn pos(&self) -> int {
        self.index as int
    }

    /// The tokens end with `Eof` and the position lies on a token.
    pub closed spec fn wf(&self) -> bool {
        &&& self.tokens.len() > 0
        &&& self.tokens@.last().kind is Eof
        &&& self.index < self.tokens.len()
    }

    pub closed spec fn same_tokens(&self, other: &Parser) -> bool {
        self.tokens@ == other.tokens@
    }

    pub fn new(tokens: Vec<Token>) -> (r: Self)
        ensures
            r.toks() == token_views(tokens@),
            r.pos() == 0,
            tokens.len() > 0 && tokens@.last().kind is Eof ==> r.wf(),
    {
        Parser { tokens, index: 0 }
    }

    /// A parser over the tokens of `source`, or its first lexical error.
    pub fn from_source(source: &str) -> (r: Result<Self, ParseError>)
        ensures
            match lex_spec(vstd::utf8::encode_utf8(source@)) {
                Ok(t) => r matches Ok(p) && p.wf() && p.toks() == t && p.pos() == 0,
                Err(e) => r matches Err(x) && x@ == e,
            },
    {
        let tokens = lex(source)?;
        proof {
            assert(token_views(tokens@).len() == tokens@.len());
            let t = token_views(tokens@);
            assert(t.last() == tokens@.last()@);
        }
        Ok(Self::new(tokens))
    }

    fn current(&self) -> (r: &Token)
        requires
            self.wf(),
        ensures
            r@ == self.toks()[self.pos()],
    {
        &self.tokens[self.index]
    }

    fn kind_eq(&self, kind: &TokenKind) -> (r: bool)
        requires
            self.wf(),
            !(kind is Integer || kind is String || kind is Ident),
        ensures
            r == is_at(self.toks(), self.pos(), *kind),
    {
        let k = &self.tokens[self.index].kind;
        let r = match (k, kind) {
            (TokenKind::Vector, TokenKind::Vector) => true,
            (TokenKind::Wallet, TokenKind::Wallet) => true,
            (TokenKind::Bind, TokenKind::Bind) => true,
            (TokenKind::Certify, TokenKind::Certify) => true,
            (TokenKind::Transfer, TokenKind::Transfer) => true,
            (TokenKind::Drain, TokenKind::Drain) => true,
            (TokenKind::Project, TokenKind::Project) => true,
            (TokenKind::Reconstruct, TokenKind::Reconstruct) => true,
            (TokenKind::Query, TokenKind::Query) => true,
            (TokenKind::Record, TokenKind::Record) => true,
            (TokenKind::Contract, TokenKind::Contract) => true,
            (TokenKind::Action, TokenKind::Action) => true,
            (TokenKind::With, TokenKind::With) => true,
            (TokenKind::To, TokenKind::To) => true,
            (TokenKind::Amount, TokenKind::Amount) => true,
            (TokenKind::By, TokenKind::By) => true,
            (TokenKind::Into, TokenKind::Into) => true,
            (TokenKind::From, TokenKind::From) => true,
            (TokenKind::Policy, TokenKind::Policy) => true,
            (TokenKind::Ctx, TokenKind::Ctx) => true,
            (TokenKind::Space, TokenKind::Space) => true,
            (TokenKind::Op, TokenKind::Op) => true,
            (TokenKind::Risk, TokenKind::Risk) => true,
            (TokenKind::ThresholdVersion, TokenKind::ThresholdVersion) => true,
            (TokenKind::Outcome, TokenKind::Outcome) => true,
            (TokenKind::Gain, TokenKind::Gain) => true,
            (TokenKind::Loss, TokenKind::Loss) => true,
            (TokenKind::Partial, TokenKind::Partial) => true,
            (TokenKind::Release, TokenKind::Release) => true,
            (TokenKind::Staged, TokenKind::Staged) => true,
            (TokenKind::As, TokenKind::As) => true,
            (TokenKind::Eq, TokenKind::Eq) => true,
            (TokenKind::Colon, TokenKind::Colon) => true,
            (TokenKind::Semi, TokenKind::Semi) => true,
            (TokenKind::Comma, TokenKind::Comma) => true,
            (TokenKind::Dot, TokenKind::Dot) => true,
            (TokenKind::LParen, TokenKind::LParen) => true,
            (TokenKind::RParen, TokenKind::RParen) => true,
            (TokenKind::LBrace, TokenKind::LBrace) => true,
            (TokenKind::RBrace, TokenKind::RBrace) => true,
            (TokenKind::Eof, TokenKind::Eof) => true,
            _ => false,
        };
        proof {
            assert(self.toks()[self.pos()] == self.tokens@[self.pos()]@);
        }
        r
    }

    fn at_end(&self) -> (r: bool)
        requires
            self.wf(),
        ensures
            r == is_at(self.toks(), self.pos(), TokenKind::Eof),
    {
        self.kind_eq(&TokenKind::Eof)
    }

    fn advance(&mut self)
        requires
            old(self).wf(),
        ensures
            final(self).wf(),
            final(self).tokens == old(self).tokens,
            final(self).pos() == if is_at(old(self).toks(), old(self).pos(), TokenKind::Eof) {
                old(self).pos()
            } else {
                old(self).pos() + 1
            },
    {
        if !self.at_end() {
            proof {
                let t = self.toks();
                assert(t[t.len() - 1] == self.tokens@.last()@);
            }
            self.index = self.index + 1;
        }
    }

    fn error_here(&self, expected: &'static str) -> (r: ParseError)
        requires
            self.wf(),
        ensures
            r@ == unexpected(self.toks(), self.pos(), expected@),
    {
        let token = self.current();
        let found = token.kind.debug_string();
        proof {
            lemma_kind_debug(token.kind);
        }
        ParseError::new(Span::new(token.start, token.end), ParseErrorKind::UnexpectedToken { expected, found })
    }

    fn expect_kind(&mut self, kind: TokenKind, expected: &'static str) -> (r: Result<(), ParseError>)
        requires
            old(self).wf(),
            !(kind is Integer || kind is String || kind is Ident || kind is Eof),
        ensures
            final(self).wf(),
            final(self).tokens == old(self).tokens,
            match p_expect(old(self).toks(), old(self).pos(), kind, expected@) {
                Ok(j) => r is Ok && final(self).pos() == j,
                Err(e) => r matches Err(x) && x@ == e,
            },
    {
        if self.kind_eq(&kind) {
            self.advance();
            Ok(())
        } else {
            Err(self.error_here(expected))
        }
    }

    fn expect_semi(&mut self) -> (r: Result<(), ParseError>)
        requires
            old(self).wf(),
        ensures
            final(self).wf(),
            final(self).tokens == old(self).tokens,
            match p_expect(old(self).toks(), old(self).pos(), TokenKind::Semi, "`;`"@) {
                Ok(j) => r is Ok && final(self).pos() == j,
                Err(e) => r matches Err(x) && x@ == e,
            },
    {
        self.expect_kind(TokenKind::Semi, "`;`")
    }

    fn take_ident(&mut self) -> (r: Result<String, ParseError>)
        requires
            old(self).wf(),
        ensures
            final(self).wf(),
            final(self).tokens == old(self).tokens,
            agrees(r, p_ident(old(self).toks(), old(self).pos()), final(self).pos()),
    {
        let ghost t = self.toks();
        proof {
            assert(t[self.pos()] == self.tokens@[self.pos()]@);
        }
        match &self.tokens[self.index].kind {
            TokenKind::Ident(text) => {
                let out = text.clone();
                self.advance();
                Ok(out)
            },
            _ => Err(self.error_here("identifier")),
        }
    }

    fn take_string_like(&mut self) -> (r: Result<String, ParseError>)
        requires
            old(self).wf(),
        ensures
            final(self).wf(),
            final(self).tokens == old(self).tokens,
            agrees(r, p_string_like(old(self).toks(), old(self).pos()), final(self).pos()),
    {
        let ghost t = self.toks();
        proof {
            assert(t[self.pos()] == self.tokens@[self.pos()]@);
        }
        match &self.tokens[self.index].kind {
            TokenKind::String(text) | TokenKind::Ident(text) => {
                let out = text.clone();
                self.advance();
                Ok(out)
            },
            TokenKind::Integer(v) => {
                let out = u128_to_string(*v);
                self.advance();
                Ok(out)
            },
            _ => Err(self.error_here("string or identifier")),
        }
    }

    fn take_integer(&mut self) -> (r: Result<u128, ParseError>)
        requires
            old(self).wf(),
        ensures
            final(self).wf(),
            final(self).tokens == old(self).tokens,
            agrees(r, p_integer(old(self).toks(), old(self).pos()), final(self).pos()),
    {
        let ghost t = self.toks();
        proof {
            assert(t[self.pos()] == self.tokens@[self.pos()]@);
        }
        match &self.tokens[self.index].kind {
            TokenKind::Integer(v) => {
                let out = *v;
                self.advance();
                Ok(out)
            },
            _ => Err(self.error_here("integer")),
        }
    }
}

} // verus!
verus! {

/// Prepends values to a successful parse result.
pub open spec fn prepend<T>(xs: Seq<T>, r: Result<(Seq<T>, int), ParseErrorView>) -> Result<(Seq<T>, int), ParseErrorView> {
    match r {
        Ok((ys, j)) => Ok((xs + ys, j)),
        Err(e) => Err(e),
    }
}

impl Parser {
    fn parse_vector_type(&mut self) -> (r: Result<VectorType, ParseError>)
        requires
            old(self).wf(),
        ensures
            final(self).wf(),
            final(self).tokens == old(self).tokens,
            agrees(r, p_vector_type(old(self).toks(), old(self).pos()), final(self).pos()),
    {
        let name = self.take_ident()?;
        match VectorType::parse(name.as_str()) {
            Some(t) => Ok(t),
            None => {
                let token = self.current();
                let mut msg = String::new();
                push_str(&mut msg, "unknown vector type `");
                push_str(&mut msg, name.as_str());
                push_str(&mut msg, "`");
                Err(ParseError::new(Span::new(token.start, token.end), ParseErrorKind::Message(msg)))
            },
        }
    }

    fn parse_vector_literal(&mut self) -> (r: Result<Vec<u128>, ParseError>)
        requires
            old(self).wf(),
        ensures
            final(self).wf(),
            final(self).tokens == old(self).tokens,
            agrees(r, p_vector_literal(old(self).toks(), old(self).pos()), final(self).pos()),
    {
        let ghost t = self.toks();
        self.expect_kind(TokenKind::LParen, "`(`")?;
        let mut components: Vec<u128> = Vec::new();
        let ghost j = self.pos();
        if !self.kind_eq(&TokenKind::RParen) {
            loop
                invariant_except_break
                    p_components(t, j) == prepend(components@, p_components(t, self.pos())),
                invariant
                    self.wf(),
                    self.toks() == t,
                    self.tokens == old(self).tokens,
                    t == old(self).toks(),
                    p_expect(t, old(self).pos(), TokenKind::LParen, "`(`"@) == Ok::<int, ParseErrorView>(j),
                    in_range(t, j) && !is_at(t, j, TokenKind::RParen),
                ensures
                    p_components(t, j) == Ok::<(Seq<u128>, int), ParseErrorView>((components@, self.pos())),
                decreases t.len() - self.pos(),
            {
                let ghost p = self.pos();
                let value = match self.take_integer() {
                    Ok(v) => v,
                    Err(e) => {
                        return Err(e);
                    },
                };
                let ghost before = components@;
                components.push(value);
                if self.kind_eq(&TokenKind::Comma) {
                    self.advance();
                    proof {
                        match p_components(t, self.pos()) {
                            Ok((vs, k)) => {
                                assert(before + (seq![value] + vs) =~= components@ + vs);
                            },
                            Err(e) => {},
                        }
                    }
                } else {
                    assert(before + seq![value] =~= components@);
                    break;
                }
            }
        }
        self.expect_kind(TokenKind::RParen, "`)`")?;
        Ok(components)
    }
}

} // verus!
verus! {

impl Parser {
    fn parse_expr(&mut self) -> (r: Result<Expr, ParseError>)
        requires
            old(self).wf(),
        ensures
            final(self).wf(),
            final(self).tokens == old(self).tokens,
            agrees(r, p_expr(old(self).toks(), old(self).pos()), final(self).pos()),
        decreases old(self).toks().len() - old(self).pos(), 2int,
    {
        proof {
            lemma_primary_progress(self.toks(), self.pos());
        }
        self.parse_path_or_primary()
    }

    fn parse_path_or_primary(&mut self) -> (r: Result<Expr, ParseError>)
        requires
            old(self).wf(),
        ensures
            final(self).wf(),
            final(self).tokens == old(self).tokens,
            agrees(r, p_expr(old(self).toks(), old(self).pos()), final(self).pos()),
        decreases old(self).toks().len() - old(self).pos(), 1int,
    {
        let ghost t = self.toks();
        let ghost i = self.pos();
        proof {
            assert(t[i] == self.tokens@[i]@);
            lemma_primary_progress(t, i);
        }
        let mut expr = match &self.tokens[self.index].kind {
            TokenKind::Integer(v) => {
                let v = *v;
                self.advance();
                Expr::Integer(v)
            },
            TokenKind::String(s) => {
                let s = s.clone();
                self.advance();
                Expr::String(s)
            },
            TokenKind::Ident(name) => {
                let name = name.clone();
                self.advance();
                if self.kind_eq(&TokenKind::LParen) {
                    self.advance();
                    let args = self.parse_named_args(TokenKind::RParen)?;
                    self.expect_kind(TokenKind::RParen, "`)`")?;
                    Expr::Call { callee: name, args }
                } else {
                    Expr::Ident(name)
                }
            },
            TokenKind::LParen => {
                self.advance();
                let inner = self.parse_expr()?;
                self.expect_kind(TokenKind::RParen, "`)`")?;
                Expr::Group(Box::new(inner))
            },
            _ => {
                return Err(self.error_here("expression"));
            },
        };
        let ghost e0 = expr@;
        let ghost j0 = self.pos();
        assert(p_primary(t, i) == Ok::<(ExprView, int), ParseErrorView>((e0, j0)));
        assert(p_expr(t, i) == p_postfix(t, e0, j0));
        while self.kind_eq(&TokenKind::Dot)
            invariant
                p_expr(t, i) == p_postfix(t, e0, j0),
                self.wf(),
                self.toks() == t,
                self.tokens == old(self).tokens,
                t == old(self).toks(),
                i == old(self).pos(),
                p_primary(t, i) == Ok::<(ExprView, int), ParseErrorView>((e0, j0)),
                p_postfix(t, e0, j0) == p_postfix(t, expr@, self.pos()),
            decreases t.len() - self.pos(),
        {
            let ghost p = self.pos();
            let ghost ev = expr@;
            assert(p_postfix(t, ev, p) == match p_ident(t, p + 1) {
                Ok((part, k)) => match ev {
                    ExprView::Ident(first) => p_postfix(t, ExprView::Path(seq![first, part]), k),
                    ExprView::Path(parts) => p_postfix(t, ExprView::Path(parts.push(part)), k),
                    other => if in_range(t, k) {
                        Err(error_at(t, k, ParseErrorKindView::Message("cannot apply path access to "@ + expr_debug(other))))
                    } else {
                        Err(out_of_range())
                    },
                },
                Err(err) => Err(err),
            });
            self.advance();
            let part = self.take_ident()?;
            expr = match expr {
                Expr::Ident(first) => {
                    let mut parts: Vec<String> = Vec::new();
                    parts.push(first);
                    parts.push(part);
                    proof {
                        assert(crate::text::views(parts@) =~= seq![first@, part@]);
                    }
                    Expr::Path(parts)
                },
                Expr::Path(parts) => {
                    let mut parts = parts;
                    let ghost before = parts@;
                    parts.push(part);
                    proof {
                        assert(crate::text::views(parts@) =~= crate::text::views(before).push(part@));
                    }
                    Expr::Path(parts)
                },
                other => {
                    let token = self.current();
                    let mut msg = String::new();
                    push_str(&mut msg, "cannot apply path access to ");
                    crate::ast::push_expr_debug(&mut msg, &other);
                    return Err(ParseError::new(Span::new(token.start, token.end), ParseErrorKind::Message(msg)));
                },
            };
        }
        Ok(expr)
    }

    fn parse_arg(&mut self) -> (r: Result<NamedArg, ParseError>)
        requires
            old(self).wf(),
        ensures
            final(self).wf(),
            final(self).tokens == old(self).tokens,
            agrees(r, p_arg(old(self).toks(), old(self).pos()), final(self).pos()),
        decreases old(self).toks().len() - old(self).pos(), 3int,
    {
        let ghost t = self.toks();
        let ghost p = self.pos();
        proof {
            assert(t[p] == self.tokens@[p]@);
            lemma_expr_progress(t, p);
        }
        match &self.tokens[self.index].kind {
            TokenKind::Ident(name) => {
                let name = name.clone();
                let save = self.index;
                self.advance();
                if self.kind_eq(&TokenKind::Eq) {
                    self.advance();
                    proof {
                        lemma_expr_progress(t, p + 2);
                    }
                    let value = self.parse_expr()?;
                    Ok(NamedArg { name: Some(name), value })
                } else {
                    self.index = save;
                    let value = self.parse_expr()?;
                    Ok(NamedArg { name: None, value })
                }
            },
            other => {
                match keyword_word(other) {
                    Some(word) => {
                        let save = self.index;
                        self.advance();
                        if self.kind_eq(&TokenKind::Eq) {
                            self.advance();
                            proof {
                                lemma_expr_progress(t, p + 2);
                            }
                            let value = self.parse_expr()?;
                            Ok(NamedArg { name: Some(owned(word)), value })
                        } else {
                            self.index = save;
                            let value = self.parse_expr()?;
                            Ok(NamedArg { name: None, value })
                        }
                    },
                    None => {
                        let value = self.parse_expr()?;
                        Ok(NamedArg { name: None, value })
                    },
                }
            },
        }
    }

    /// Arguments separated by commas, appended to `acc`.
    fn parse_args_into(&mut self, terminator: TokenKind, acc: &mut Vec<NamedArg>) -> (r: Result<(), ParseError>)
        requires
            old(self).wf(),
            !(terminator is Integer || terminator is String || terminator is Ident),
        ensures
            final(self).wf(),
            final(self).tokens == old(self).tokens,
            match p_args(old(self).toks(), old(self).pos(), terminator) {
                Ok((a, j)) => r is Ok && args_view(final(acc)@) == args_view(old(acc)@) + a && final(self).pos() == j,
                Err(e) => r matches Err(x) && x@ == e,
            },
        decreases old(self).toks().len() - old(self).pos(), 4int,
    {
        let ghost t = self.toks();
        let ghost p = self.pos();
        proof {
            lemma_arg_progress(t, p);
        }
        let arg = self.parse_arg()?;
        let ghost av = arg@;
        let ghost before = acc@;
        acc.push(arg);
        proof {
            lemma_args_view(before);
            lemma_args_view(acc@);
            assert(args_view(acc@) =~= args_view(before).push(av));
        }
        if self.kind_eq(&TokenKind::Comma) {
            self.advance();
            if self.kind_eq(&terminator) {
                assert(args_view(acc@) =~= args_view(before) + seq![av]);
                return Ok(());
            }
            let ghost mid = acc@;
            let r = self.parse_args_into(terminator, acc);
            assert(args_view(mid) =~= args_view(before) + seq![av]);
            r
        } else {
            assert(args_view(acc@) =~= args_view(before) + seq![av]);
            Ok(())
        }
    }

    fn parse_named_args(&mut self, terminator: TokenKind) -> (r: Result<Vec<NamedArg>, ParseError>)
        requires
            old(self).wf(),
            !(terminator is Integer || terminator is String || terminator is Ident),
        ensures
            final(self).wf(),
            final(self).tokens == old(self).tokens,
            match p_named_args(old(self).toks(), old(self).pos(), terminator) {
                Ok((a, j)) => r matches Ok(x) && args_view(x@) == a && final(self).pos() == j,
                Err(e) => r matches Err(x) && x@ == e,
            },
        decreases old(self).toks().len() - old(self).pos(), 5int,
    {
        let mut args: Vec<NamedArg> = Vec::new();
        proof {
            lemma_args_view(args@);
        }
        if self.kind_eq(&terminator) {
            return Ok(args);
        }
        self.parse_args_into(terminator, &mut args)?;
        assert(args_view(Seq::<NamedArg>::empty()) =~= Seq::<NamedArgView>::empty());
        Ok(args)
    }
}

} // verus!
verus! {

pub proof fn lemma_action_progress(t: Seq<TokenView>, i: int)
    ensures
        p_action(t, i) matches Ok((a, j)) ==> i < j <= t.len(),
{
    match p_expect(t, i, TokenKind::Action, "`action`"@) {
        Ok(j) => match p_ident(t, j) {
            Ok((name, k)) => {
                if in_range(t, k) && is_at(t, k, TokenKind::LParen) {
                    lemma_named_args_progress(t, k + 1, TokenKind::RParen);
                }
            },
            Err(_) => {},
        },
        Err(_) => {},
    }
}

impl Parser {
    fn parse_context_expr(&mut self) -> (r: Result<ContextExpr, ParseError>)
        requires
            old(self).wf(),
        ensures
            final(self).wf(),
            final(self).tokens == old(self).tokens,
            match p_context(old(self).toks(), old(self).pos()) {
                Ok((a, j)) => r matches Ok(x) && args_view(x.args@) == a && final(self).pos() == j,
                Err(e) => r matches Err(x) && x@ == e,
            },
    {
        if !self.kind_eq(&TokenKind::Ctx) {
            return Err(self.error_here("ctx(...)"));
        }
        self.advance();
        self.expect_kind(TokenKind::LParen, "`(`")?;
        let args = self.parse_named_args(TokenKind::RParen)?;
        self.expect_kind(TokenKind::RParen, "`)`")?;
        Ok(ContextExpr::new(args))
    }

    fn parse_contract_action(&mut self) -> (r: Result<ContractAction, ParseError>)
        requires
            old(self).wf(),
        ensures
            final(self).wf(),
            final(self).tokens == old(self).tokens,
            agrees(r, p_action(old(self).toks(), old(self).pos()), final(self).pos()),
    {
        self.expect_kind(TokenKind::Action, "`action`")?;
        let name = self.take_ident()?;
        let mut args: Vec<NamedArg> = Vec::new();
        if self.kind_eq(&TokenKind::LParen) {
            self.advance();
            args = self.parse_named_args(TokenKind::RParen)?;
            self.expect_kind(TokenKind::RParen, "`)`")?;
        } else {
            proof {
                lemma_args_view(args@);
            }
        }
        self.expect_semi()?;
        Ok(ContractAction { name, args })
    }

    /// Keyword `kind` (error "`expected`" otherwise), then an identifier.
    fn word_then_ident(&mut self, kind: TokenKind, expected: &'static str) -> (r: Result<String, ParseError>)
        requires
            old(self).wf(),
            !(kind is Integer || kind is String || kind is Ident || kind is Eof),
        ensures
            final(self).wf(),
            final(self).tokens == old(self).tokens,
            agrees(r, p_word_ident(old(self).toks(), old(self).pos(), kind, expected@), final(self).pos()),
    {
        if !self.kind_eq(&kind) {
            return Err(self.error_here(expected));
        }
        self.advance();
        self.take_ident()
    }

    /// Contract actions up to the closing brace.
    fn parse_actions(&mut self) -> (r: Result<Vec<ContractAction>, ParseError>)
        requires
            old(self).wf(),
        ensures
            final(self).wf(),
            final(self).tokens == old(self).tokens,
            match p_actions(old(self).toks(), old(self).pos()) {
                Ok((a, j)) => r matches Ok(x) && x@.map_values(|c: ContractAction| c@) == a && final(self).pos() == j,
                Err(e) => r matches Err(x) && x@ == e,
            },
    {
        let ghost t = self.toks();
        let ghost i0 = self.pos();
        let mut actions: Vec<ContractAction> = Vec::new();
        while !self.kind_eq(&TokenKind::RBrace)
            invariant
                self.wf(),
                self.toks() == t,
                self.tokens == old(self).tokens,
                t == old(self).toks(),
                i0 == old(self).pos(),
                p_actions(t, i0) == prepend(actions@.map_values(|c: ContractAction| c@), p_actions(t, self.pos())),
            decreases t.len() - self.pos(),
        {
            let ghost p = self.pos();
            proof {
                lemma_action_progress(t, p);
            }
            let a = self.parse_contract_action()?;
            let ghost av = a@;
            let ghost before = actions@;
            actions.push(a);
            proof {
                assert(actions@.map_values(|c: ContractAction| c@) =~= before.map_values(|c: ContractAction| c@).push(av));
                match p_actions(t, self.pos()) {
                    Ok((rest, k)) => {
                        assert(before.map_values(|c: ContractAction| c@) + (seq![av] + rest)
                            =~= actions@.map_values(|c: ContractAction| c@) + rest);
                    },
                    Err(e) => {},
                }
            }
        }
        assert(actions@.map_values(|c: ContractAction| c@) + Seq::<ContractActionView>::empty()
            =~= actions@.map_values(|c: ContractAction| c@));
        Ok(actions)
    }
}

} // verus!
verus! {

pub proof fn lemma_components_progress(t: Seq<TokenView>, i: int)
    ensures
        p_components(t, i) matches Ok((v, j)) ==> i < j <= t.len(),
    decreases t.len() - i,
{
    match p_integer(t, i) {
        Ok((v, j)) => if in_range(t, j) && is_at(t, j, TokenKind::Comma) {
            lemma_components_progress(t, j + 1);
        },
        Err(_) => {},
    }
}

pub proof fn lemma_actions_progress(t: Seq<TokenView>, i: int)
    ensures
        p_actions(t, i) matches Ok((v, j)) ==> i <= j <= t.len(),
    decreases t.len() - i,
{
    if in_range(t, i) && !is_at(t, i, TokenKind::RBrace) {
        match p_action(t, i) {
            Ok((a, j)) => if i < j {
                lemma_actions_progress(t, j);
            },
            Err(_) => {},
        }
    }
}

pub proof fn lemma_transfer_tail_progress(t: Seq<TokenView>, i: int, d: Option<ExprView>, p: Option<ExprView>)
    ensures
        p_transfer_tail(t, i, d, p) matches Ok((x, y, j)) ==> i <= j <= t.len(),
    decreases t.len() - i,
{
    if in_range(t, i) && !is_at(t, i, TokenKind::Semi) && (is_at(t, i, TokenKind::Drain) || is_at(t, i, TokenKind::Policy)) {
        match p_expr(t, i + 1) {
            Ok((e, k)) => if i < k <= t.len() {
                lemma_transfer_tail_progress(t, k, Some(e), p);
                lemma_transfer_tail_progress(t, k, d, Some(e));
            },
            Err(_) => {},
        }
    }
}

pub proof fn lemma_project_tail_progress(t: Seq<TokenView>, i: int, p: Option<ExprView>)
    ensures
        p_project_tail(t, i, p) matches Ok((x, j)) ==> i <= j <= t.len(),
    decreases t.len() - i,
{
    if in_range(t, i) && !is_at(t, i, TokenKind::Semi) && is_at(t, i, TokenKind::Policy) {
        match p_expr(t, i + 1) {
            Ok((e, k)) => if i < k <= t.len() {
                lemma_project_tail_progress(t, k, Some(e));
            },
            Err(_) => {},
        }
    }
}

/// Every statement consumes at least one token.
pub proof fn lemma_statement_progress(t: Seq<TokenView>, i: int)
    ensures
        p_statement(t, i) matches Ok((s, j)) ==> i < j <= t.len(),
{
    if in_range(t, i) {
        // each branch begins by consuming the keyword at `i`; the rest only moves forward
        assert forall|k: int| #![trigger p_expr(t, k)] true implies
            (p_expr(t, k) matches Ok((e, j)) ==> k < j <= t.len()) by {
            lemma_expr_progress(t, k);
        }
        assert forall|k: int| #![trigger p_components(t, k)] true implies
            (p_components(t, k) matches Ok((e, j)) ==> k < j <= t.len()) by {
            lemma_components_progress(t, k);
        }
        assert forall|k: int| #![trigger p_named_args(t, k, TokenKind::RParen)] true implies
            (p_named_args(t, k, TokenKind::RParen) matches Ok((e, j)) ==> k <= j <= t.len()) by {
            lemma_named_args_progress(t, k, TokenKind::RParen);
        }
        assert forall|k: int| #![trigger p_actions(t, k)] true implies
            (p_actions(t, k) matches Ok((e, j)) ==> k <= j <= t.len()) by {
            lemma_actions_progress(t, k);
        }
        assert forall|k: int| #![trigger p_transfer_tail(t, k, None, None)] true implies
            (p_transfer_tail(t, k, None, None) matches Ok((x, y, j)) ==> k <= j <= t.len()) by {
            lemma_transfer_tail_progress(t, k, None, None);
        }
        assert forall|k: int| #![trigger p_project_tail(t, k, None)] true implies
            (p_project_tail(t, k, None) matches Ok((x, j)) ==> k <= j <= t.len()) by {
            lemma_project_tail_progress(t, k, None);
        }
    }
}

} // verus!
verus! {

impl Parser {
    fn parse_vector_decl(&mut self) -> (r: Result<Statement, ParseError>)
        requires
            old(self).wf(),
        ensures
            final(self).wf(),
            final(self).tokens == old(self).tokens,
            agrees(r, p_vector_decl(old(self).toks(), old(self).pos()), final(self).pos()),
    {
        let name = self.take_ident()?;
        self.expect_kind(TokenKind::Colon, "`:`")?;
        let vector_type = self.parse_vector_type()?;
        self.expect_kind(TokenKind::Eq, "`=`")?;
        let components = self.parse_vector_literal()?;
        self.expect_semi()?;
        Ok(Statement::VectorDecl(VectorDecl { name, vector_type, components }))
    }

    fn parse_wallet_decl(&mut self) -> (r: Result<Statement, ParseError>)
        requires
            old(self).wf(),
        ensures
            final(self).wf(),
            final(self).tokens == old(self).tokens,
            agrees(r, p_wallet_decl(old(self).toks(), old(self).pos()), final(self).pos()),
    {
        let name = self.take_ident()?;
        self.expect_kind(TokenKind::Eq, "`=`")?;
        if !self.kind_eq(&TokenKind::Bind) {
            return Err(self.error_here("bind(...)"));
        }
        self.advance();
        self.expect_kind(TokenKind::LParen, "`(`")?;
        let public_key = self.take_string_like()?;
        self.expect_kind(TokenKind::RParen, "`)`")?;
        self.expect_semi()?;
        Ok(Statement::WalletDecl(WalletDecl { name, public_key }))
    }

    fn parse_certify(&mut self) -> (r: Result<Statement, ParseError>)
        requires
            old(self).wf(),
        ensures
            final(self).wf(),
            final(self).tokens == old(self).tokens,
            agrees(r, p_certify(old(self).toks(), old(self).pos()), final(self).pos()),
    {
        let target = self.take_ident()?;
        if !self.kind_eq(&TokenKind::With) {
            return Err(self.error_here("with ctx(...)"));
        }
        self.advance();
        let context = self.parse_context_expr()?;
        self.expect_semi()?;
        Ok(Statement::Certify(CertifyStmt { target, context }))
    }

    fn parse_transfer(&mut self) -> (r: Result<Statement, ParseError>)
        requires
            old(self).wf(),
        ensures
            final(self).wf(),
            final(self).tokens == old(self).tokens,
            agrees(r, p_transfer(old(self).toks(), old(self).pos()), final(self).pos()),
    {
        let ghost t = self.toks();
        let ghost i0 = self.pos();
        let source = self.take_ident()?;
        let destination = self.word_then_ident(TokenKind::To, "to")?;
        if !self.kind_eq(&TokenKind::Amount) {
            return Err(self.error_here("amount"));
        }
        self.advance();
        let amount = self.parse_expr()?;
        let ghost m = self.pos();
        let mut drain: Option<Expr> = None;
        let mut policy: Option<Expr> = None;
        while !self.kind_eq(&TokenKind::Semi)
            invariant
                self.wf(),
                self.toks() == t,
                self.tokens == old(self).tokens,
                t == old(self).toks(),
                i0 == old(self).pos(),
                p_transfer(t, i0) == match p_transfer_tail(t, m, None, None) {
                    Ok((d, p, n)) => match p_expect(t, n, TokenKind::Semi, "`;`"@) {
                        Ok(o) => Ok((StatementView::Transfer {
                            source: source@,
                            destination: destination@,
                            amount: amount@,
                            drain: d,
                            policy: p,
                        }, o)),
                        Err(e) => Err(e),
                    },
                    Err(e) => Err(e),
                },
                p_transfer_tail(t, m, None, None) == p_transfer_tail(t, self.pos(), opt_expr_view(drain), opt_expr_view(policy)),
            decreases t.len() - self.pos(),
        {
            let ghost p = self.pos();
            proof {
                lemma_expr_progress(t, p + 1);
            }
            if self.kind_eq(&TokenKind::Drain) {
                self.advance();
                drain = Some(self.parse_expr()?);
            } else if self.kind_eq(&TokenKind::Policy) {
                self.advance();
                policy = Some(self.parse_expr()?);
            } else {
                return Err(self.error_here("`drain` or `policy` or `;`"));
            }
        }
        self.expect_semi()?;
        Ok(Statement::Transfer(TransferStmt { source, destination, amount, drain, policy }))
    }

    fn parse_drain(&mut self) -> (r: Result<Statement, ParseError>)
        requires
            old(self).wf(),
        ensures
            final(self).wf(),
            final(self).tokens == old(self).tokens,
            agrees(r, p_drain(old(self).toks(), old(self).pos()), final(self).pos()),
    {
        let target = self.take_ident()?;
        if !self.kind_eq(&TokenKind::By) {
            return Err(self.error_here("by"));
        }
        self.advance();
        let amount = self.parse_expr()?;
        self.expect_semi()?;
        Ok(Statement::Drain(DrainStmt { target, amount }))
    }

    fn parse_project(&mut self) -> (r: Result<Statement, ParseError>)
        requires
            old(self).wf(),
        ensures
            final(self).wf(),
            final(self).tokens == old(self).tokens,
            agrees(r, p_project(old(self).toks(), old(self).pos()), final(self).pos()),
    {
        let ghost t = self.toks();
        let ghost i0 = self.pos();
        let source = self.take_ident()?;
        let environment = self.word_then_ident(TokenKind::Into, "into")?;
        if !self.kind_eq(&TokenKind::Amount) {
            return Err(self.error_here("amount"));
        }
        self.advance();
        let amount = self.parse_expr()?;
        let ghost m = self.pos();
        let mut policy: Option<Expr> = None;
        while !self.kind_eq(&TokenKind::Semi)
            invariant
                self.wf(),
                self.toks() == t,
                self.tokens == old(self).tokens,
                t == old(self).toks(),
                i0 == old(self).pos(),
                p_project(t, i0) == match p_project_tail(t, m, None) {
                    Ok((p, n)) => match p_expect(t, n, TokenKind::Semi, "`;`"@) {
                        Ok(o) => Ok((StatementView::Project {
                            source: source@,
                            environment: environment@,
                            amount: amount@,
                            policy: p,
                        }, o)),
                        Err(e) => Err(e),
                    },
                    Err(e) => Err(e),
                },
                p_project_tail(t, m, None) == p_project_tail(t, self.pos(), opt_expr_view(policy)),
            decreases t.len() - self.pos(),
        {
            let ghost p = self.pos();
            proof {
                lemma_expr_progress(t, p + 1);
            }
            if self.kind_eq(&TokenKind::Policy) {
                self.advance();
                policy = Some(self.parse_expr()?);
            } else {
                return Err(self.error_here("`policy` or `;`"));
            }
        }
        self.expect_semi()?;
        Ok(Statement::Project(ProjectStmt { source, environment, amount, policy }))
    }

    fn parse_reconstruct(&mut self) -> (r: Result<Statement, ParseError>)
        requires
            old(self).wf(),
        ensures
            final(self).wf(),
            final(self).tokens == old(self).tokens,
            agrees(r, p_reconstruct(old(self).toks(), old(self).pos()), final(self).pos()),
    {
        let target = self.take_ident()?;
        let projection_id = self.word_then_ident(TokenKind::From, "from")?;
        self.expect_semi()?;
        Ok(Statement::Reconstruct(ReconstructStmt { target, projection_id }))
    }

    fn parse_contract(&mut self) -> (r: Result<Statement, ParseError>)
        requires
            old(self).wf(),
        ensures
            final(self).wf(),
            final(self).tokens == old(self).tokens,
            agrees(r, p_contract(old(self).toks(), old(self).pos()), final(self).pos()),
    {
        let name = self.take_ident()?;
        self.expect_kind(TokenKind::LBrace, "`{`")?;
        let actions = self.parse_actions()?;
        self.expect_kind(TokenKind::RBrace, "`}`")?;
        Ok(Statement::Contract(ContractDecl { name, actions }))
    }

    fn parse_statement(&mut self) -> (r: Result<Statement, ParseError>)
        requires
            old(self).wf(),
        ensures
            final(self).wf(),
            final(self).tokens == old(self).tokens,
            agrees(r, p_statement(old(self).toks(), old(self).pos()), final(self).pos()),
    {
        if self.kind_eq(&TokenKind::Vector) {
            self.advance();
            self.parse_vector_decl()
        } else if self.kind_eq(&TokenKind::Wallet) {
            self.advance();
            self.parse_wallet_decl()
        } else if self.kind_eq(&TokenKind::Certify) {
            self.advance();
            self.parse_certify()
        } else if self.kind_eq(&TokenKind::Transfer) {
            self.advance();
            self.parse_transfer()
        } else if self.kind_eq(&TokenKind::Drain) {
            self.advance();
            self.parse_drain()
        } else if self.kind_eq(&TokenKind::Project) {
            self.advance();
            self.parse_project()
        } else if self.kind_eq(&TokenKind::Reconstruct) {
            self.advance();
            self.parse_reconstruct()
        } else if self.kind_eq(&TokenKind::Query) {
            self.advance();
            let expr = self.parse_expr()?;
            self.expect_semi()?;
            Ok(Statement::Query(QueryStmt { expr }))
        } else if self.kind_eq(&TokenKind::Record) {
            self.advance();
            let expr = self.parse_expr()?;
            self.expect_semi()?;
            Ok(Statement::Record(RecordStmt { expr }))
        } else if self.kind_eq(&TokenKind::Contract) {
            self.advance();
            self.parse_contract()
        } else {
            Err(self.error_here("statement"))
        }
    }

    /// Parses statements up to the end of the tokens.
    pub fn parse_program(&mut self) -> (r: Result<Program, ParseError>)
        requires
            old(self).wf(),
        ensures
            final(self).wf(),
            match p_program(old(self).toks(), old(self).pos()) {
                Ok(ss) => r matches Ok(p) && p@ == ss,
                Err(e) => r matches Err(x) && x@ == e,
            },
    {
        let ghost t = self.toks();
        let ghost i0 = self.pos();
        let mut statements: Vec<Statement> = Vec::new();
        while !self.at_end()
            invariant
                self.wf(),
                self.toks() == t,
                self.tokens == old(self).tokens,
                t == old(self).toks(),
                i0 == old(self).pos(),
                p_program(t, i0) == match p_program(t, self.pos()) {
                    Ok(rest) => Ok(statements@.map_values(|s: Statement| s@) + rest),
                    Err(e) => Err::<Seq<StatementView>, ParseErrorView>(e),
                },
            decreases t.len() - self.pos(),
        {
            let ghost p = self.pos();
            proof {
                lemma_statement_progress(t, p);
            }
            let s = self.parse_statement()?;
            let ghost sv = s@;
            let ghost before = statements@;
            statements.push(s);
            proof {
                assert(statements@.map_values(|s: Statement| s@) =~= before.map_values(|s: Statement| s@).push(sv));
                match p_program(t, self.pos()) {
                    Ok(rest) => {
                        assert(before.map_values(|s: Statement| s@) + (seq![sv] + rest)
                            =~= statements@.map_values(|s: Statement| s@) + rest);
                    },
                    Err(e) => {},
                }
            }
        }
        let program = Program { statements };
        assert(program@ =~= program.statements@.map_values(|s: Statement| s@) + Seq::<StatementView>::empty());
        Ok(program)
    }
}

/// Parses a source: lexes it, then parses the tokens.
pub fn parse(source: &str) -> (r: Result<Program, ParseError>)
    ensures
        match parse_spec(source@) {
            Ok(ss) => r matches Ok(p) && p@ == ss,
            Err(e) => r matches Err(x) && x@ == e,
        },
{
    let mut parser = Parser::from_source(source)?;
    parser.parse_program()
}

} // verus!
verus! {

/// A wallet declaration `wallet n = bind(k);` parses whatever form the key
/// takes: a string or an identifier gives its text, an integer literal
/// its decimal digits.
pub proof fn law_wallet_key_forms(t: Seq<TokenView>, i: int, name: Seq<char>)
    requires
        0 <= i,
        i + 8 <= t.len(),
        is_at(t, i, TokenKind::Wallet),
        t[i + 1].kind == TokenKindView::Ident(name),
        is_at(t, i + 2, TokenKind::Eq),
        is_at(t, i + 3, TokenKind::Bind),
        is_at(t, i + 4, TokenKind::LParen),
        is_at(t, i + 6, TokenKind::RParen),
        is_at(t, i + 7, TokenKind::Semi),
    ensures
        t[i + 5].kind matches TokenKindView::Str(s) ==> p_statement(t, i) == Ok::<(StatementView, int),
            ParseErrorView>((StatementView::WalletDecl { name, public_key: s }, i + 8)),
        t[i + 5].kind matches TokenKindView::Ident(s) ==> p_statement(t, i) == Ok::<(StatementView, int),
            ParseErrorView>((StatementView::WalletDecl { name, public_key: s }, i + 8)),
        t[i + 5].kind matches TokenKindView::Kind(TokenKind::Integer(v)) ==> p_statement(t, i) == Ok::<
            (StatementView, int),
            ParseErrorView,
        >((StatementView::WalletDecl { name, public_key: dec(v as nat) }, i + 8)),
{
}

/// A key that is an integer literal is taken as its decimal digits, and
/// one that is a string or an identifier as its text; anything else is
/// refused.
pub proof fn law_string_like(t: Seq<TokenView>, i: int)
    requires
        0 <= i < t.len(),
    ensures
        t[i].kind matches TokenKindView::Kind(TokenKind::Integer(v)) ==> p_string_like(t, i) == Ok::<
            (Seq<char>, int),
            ParseErrorView,
        >((dec(v as nat), i + 1)),
        t[i].kind matches TokenKindView::Str(s) ==> p_string_like(t, i) == Ok::<(Seq<char>, int), ParseErrorView>(
            (s, i + 1)),
        t[i].kind matches TokenKindView::Ident(s) ==> p_string_like(t, i) == Ok::<(Seq<char>, int), ParseErrorView>(
            (s, i + 1)),
        p_string_like(t, i) is Ok ==> (t[i].kind is Str || t[i].kind is Ident || t[i].kind matches
            TokenKindView::Kind(TokenKind::Integer(_))),
{
}

} // verus!
