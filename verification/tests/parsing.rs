//! Parser behaviour: groupings versus tuples, sets versus dicts, the
//! arrow call sugar, and error tolerance.

use sylt::ast::{AssignableKind, ExpressionKind};
use sylt::expression::expression;
use sylt::parser::{parse_module, Context};
use sylt::token::{Token, T};
use sylt::Span;

fn toks(kinds: Vec<T>) -> Vec<Token> {
    let mut out: Vec<Token> = Vec::new();
    for kind in kinds {
        out.push(Token {
            kind,
            span: Span { line: 1 },
        });
    }
    out.push(Token {
        kind: T::EOF,
        span: Span { line: 1 },
    });
    out
}

fn parse_expr(kinds: Vec<T>) -> ExpressionKind {
    let tokens = toks(kinds);
    let file = String::from("test.sy");
    let ctx = Context::new(&tokens, &file);
    let (_, e) = match expression(ctx) {
        Ok(x) => x,
        Err(_) => panic!("the expression should parse"),
    };
    e.kind
}

#[test]
fn paren_int_is_grouping() {
    // `(1)` parses as the integer expression `1`.
    let kind = parse_expr(vec![T::LeftParen, T::Int(1), T::RightParen]);
    assert!(matches!(kind, ExpressionKind::Int(1)));
}

#[test]
fn paren_int_comma_is_tuple() {
    // `(1,)` parses as a one-element tuple.
    let kind = parse_expr(vec![T::LeftParen, T::Int(1), T::Comma, T::RightParen]);
    match kind {
        ExpressionKind::Tuple(es) => {
            assert_eq!(es.len(), 1);
            assert!(matches!(es[0].kind, ExpressionKind::Int(1)));
        }
        _ => panic!("expected a tuple"),
    }
}

#[test]
fn empty_parens_are_zero_tuple() {
    // `()` parses as the zero-element tuple.
    let kind = parse_expr(vec![T::LeftParen, T::RightParen]);
    match kind {
        ExpressionKind::Tuple(es) => assert_eq!(es.len(), 0),
        _ => panic!("expected a tuple"),
    }
}

#[test]
fn comma_parens_are_zero_tuple() {
    // `(,)` also parses as the zero-element tuple.
    let kind = parse_expr(vec![T::LeftParen, T::Comma, T::RightParen]);
    match kind {
        ExpressionKind::Tuple(es) => assert_eq!(es.len(), 0),
        _ => panic!("expected a tuple"),
    }
}

#[test]
fn empty_braces_are_empty_set() {
    // `{}` parses as an empty set.
    let kind = parse_expr(vec![T::LeftBrace, T::RightBrace]);
    match kind {
        ExpressionKind::SetCol(es) => assert_eq!(es.len(), 0),
        _ => panic!("expected a set"),
    }
}

#[test]
fn colon_braces_are_empty_dict() {
    // `{:}` parses as an empty dict.
    let kind = parse_expr(vec![T::LeftBrace, T::Colon, T::RightBrace]);
    match kind {
        ExpressionKind::Dict(es) => assert_eq!(es.len(), 0),
        _ => panic!("expected a dict"),
    }
}

#[test]
fn one_pair_dict() {
    // `{1: 2}` parses as a one-pair dict: key and value interleaved.
    let kind = parse_expr(vec![
        T::LeftBrace,
        T::Int(1),
        T::Colon,
        T::Int(2),
        T::RightBrace,
    ]);
    match kind {
        ExpressionKind::Dict(es) => {
            assert_eq!(es.len(), 2);
            assert!(matches!(es[0].kind, ExpressionKind::Int(1)));
            assert!(matches!(es[1].kind, ExpressionKind::Int(2)));
        }
        _ => panic!("expected a dict"),
    }
}

#[test]
fn one_element_set() {
    // `{1}` parses as a one-element set.
    let kind = parse_expr(vec![T::LeftBrace, T::Int(1), T::RightBrace]);
    match kind {
        ExpressionKind::SetCol(es) => {
            assert_eq!(es.len(), 1);
            assert!(matches!(es[0].kind, ExpressionKind::Int(1)));
        }
        _ => panic!("expected a set"),
    }
}

#[test]
fn mixed_set_and_dict_entries_are_an_error() {
    // `{1, 2: 3}` mixes a bare value with a pair: a syntax error.
    let tokens = toks(vec![
        T::LeftBrace,
        T::Int(1),
        T::Comma,
        T::Int(2),
        T::Colon,
        T::Int(3),
        T::RightBrace,
    ]);
    let file = String::from("test.sy");
    let ctx = Context::new(&tokens, &file);
    assert!(expression(ctx).is_err());
}

#[test]
fn bare_colon_after_commitment_is_an_error() {
    // `{1: 2, :}` tries the empty dict pair inside a committed dict.
    let tokens = toks(vec![
        T::LeftBrace,
        T::Int(1),
        T::Colon,
        T::Int(2),
        T::Comma,
        T::Colon,
        T::RightBrace,
    ]);
    let file = String::from("test.sy");
    let ctx = Context::new(&tokens, &file);
    assert!(expression(ctx).is_err());
}

#[test]
fn arrow_splices_lhs_as_first_argument() {
    // `a -> f(b)` parses as `f(a, b)`.
    let kind = parse_expr(vec![
        T::Identifier(String::from("a")),
        T::Arrow,
        T::Identifier(String::from("f")),
        T::LeftParen,
        T::Identifier(String::from("b")),
        T::RightParen,
    ]);
    match kind {
        ExpressionKind::Get(assignable) => match assignable.kind {
            AssignableKind::Call(callee, args) => {
                match callee.kind {
                    AssignableKind::Read(ident) => assert_eq!(ident.name, "f"),
                    _ => panic!("expected the callee to be a plain name"),
                }
                assert_eq!(args.len(), 2);
                match &args[0].kind {
                    ExpressionKind::Get(a) => match &a.kind {
                        AssignableKind::Read(ident) => assert_eq!(ident.name, "a"),
                        _ => panic!("expected the spliced argument to be a read"),
                    },
                    _ => panic!("expected the spliced argument to be a read"),
                }
            }
            _ => panic!("expected a call"),
        },
        _ => panic!("expected a call expression"),
    }
}

#[test]
fn arrow_to_non_call_is_an_error() {
    // `a -> 5` has no call on the right of the arrow: the module parse
    // reports a syntax error.
    let tokens = toks(vec![T::Identifier(String::from("a")), T::Arrow, T::Int(5)]);
    let file = String::from("test.sy");
    let (_, errors) = parse_module(&tokens, &file);
    assert!(!errors.is_empty());
}

#[test]
fn precedence_binds_factor_tighter_than_term() {
    // `1 + 2 * 3` parses as `1 + (2 * 3)`.
    let kind = parse_expr(vec![T::Int(1), T::Plus, T::Int(2), T::Star, T::Int(3)]);
    match kind {
        ExpressionKind::Add(l, r) => {
            assert!(matches!(l.kind, ExpressionKind::Int(1)));
            assert!(matches!(r.kind, ExpressionKind::Mul(_, _)));
        }
        _ => panic!("expected an addition at the top"),
    }
}

#[test]
fn subtraction_is_left_associative() {
    // `5 - 2 - 1` parses as `(5 - 2) - 1`.
    let kind = parse_expr(vec![T::Int(5), T::Minus, T::Int(2), T::Minus, T::Int(1)]);
    match kind {
        ExpressionKind::Sub(l, r) => {
            assert!(matches!(l.kind, ExpressionKind::Sub(_, _)));
            assert!(matches!(r.kind, ExpressionKind::Int(1)));
        }
        _ => panic!("expected a subtraction at the top"),
    }
}

#[test]
fn list_parses_with_newlines() {
    // `[1,\n2]` is a two-element list; newlines are fine inside lists.
    let kind = parse_expr(vec![
        T::LeftBracket,
        T::Int(1),
        T::Comma,
        T::Newline,
        T::Int(2),
        T::RightBracket,
    ]);
    match kind {
        ExpressionKind::List(es) => assert_eq!(es.len(), 2),
        _ => panic!("expected a list"),
    }
}

#[test]
fn module_reports_two_independent_syntax_errors() {
    // Two malformed lines each get their own syntax error: the parser
    // resumes at the next line.
    let tokens = toks(vec![
        T::Plus,
        T::Newline,
        T::Int(1),
        T::Plus,
        T::Int(2),
        T::Newline,
        T::Star,
        T::Newline,
    ]);
    let file = String::from("test.sy");
    let (module, errors) = parse_module(&tokens, &file);
    assert_eq!(errors.len(), 2);
    assert_eq!(module.statements.len(), 1);
}

#[test]
fn function_literal_parses() {
    // `fn a: int -> int { 1 }` is a function literal.
    let kind = parse_expr(vec![
        T::Fn,
        T::Identifier(String::from("a")),
        T::Colon,
        T::Identifier(String::from("int")),
        T::Arrow,
        T::Identifier(String::from("int")),
        T::LeftBrace,
        T::Int(1),
        T::RightBrace,
    ]);
    match kind {
        ExpressionKind::Function { params, .. } => assert_eq!(params.len(), 1),
        _ => panic!("expected a function literal"),
    }
}

#[test]
fn blob_instantiation_parses() {
    // `A { b: 55 }` is a blob instantiation.
    let kind = parse_expr(vec![
        T::Identifier(String::from("A")),
        T::LeftBrace,
        T::Identifier(String::from("b")),
        T::Colon,
        T::Int(55),
        T::RightBrace,
    ]);
    match kind {
        ExpressionKind::Instance { fields, .. } => {
            assert_eq!(fields.len(), 1);
            assert_eq!(fields[0].0, "b");
        }
        _ => panic!("expected a blob instantiation"),
    }
}
