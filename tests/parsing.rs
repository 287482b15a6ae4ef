use minihs::ast::{Decl, Expr, Literal, Op, Pattern};
use minihs::lexer::{tokenize, Sym, Token};
use minihs::parse::parse;

fn parses(src: &str) -> Vec<Decl> {
    match parse(src) {
        Ok(p) => p,
        Err(_) => panic!("parse failed"),
    }
}

#[test]
fn test_literals() {
    let p = parses("1\nTrue\n'c'\n\"text\"\n");
    assert_eq!(p.len(), 4);
    assert!(matches!(&p[0], Decl::SExpr(Expr::Literal(Literal::Int(1)))));
    assert!(matches!(&p[1], Decl::SExpr(Expr::Literal(Literal::Bool(true)))));
    assert!(matches!(&p[2], Decl::SExpr(Expr::Literal(Literal::Char('c')))));
    assert!(matches!(&p[3], Decl::SExpr(Expr::Literal(Literal::String(s))) if s == "text"));
}

#[test]
fn test_fun() {
    let p = parses("double :: Int -> Int\ndouble x = x + x\n");
    assert_eq!(p.len(), 2);
    assert!(matches!(&p[0], Decl::TypeSignature(n, _) if n == "double"));
    match &p[1] {
        Decl::FunDecl(n, params, _) => {
            assert_eq!(n, "double");
            assert_eq!(params, &vec!["x".to_string()]);
        }
        _ => panic!("expected a function"),
    }
}

#[test]
fn test_complex_fun() {
    let p = parses("add 0 y = y\nadd x y = x + y\n");
    assert_eq!(p.len(), 1);
    match &p[0] {
        Decl::FunDecl(n, params, Expr::Case(scrutinee, alts)) => {
            assert_eq!(n, "add");
            assert_eq!(params, &vec!["add:arg1".to_string(), "add:arg0".to_string()]);
            assert!(matches!(&**scrutinee, Expr::Tuple(es) if es.len() == 2));
            assert_eq!(alts.len(), 2);
            match &alts[1].0 {
                Pattern::FakeTuple(ps) => {
                    assert!(matches!(&ps[0], Pattern::Var(v) if v == "add:arg0"));
                    assert!(matches!(&ps[1], Pattern::Var(v) if v == "add:arg1"));
                }
                _ => panic!("expected a fake tuple"),
            }
        }
        _ => panic!("expected a function with a case body"),
    }
}

#[test]
fn test_var() {
    let p = parses("x = 5\nx\n");
    assert_eq!(p.len(), 2);
    match &p[0] {
        Decl::FunDecl(n, params, Expr::Literal(Literal::Int(5))) => {
            assert_eq!(n, "x");
            assert!(params.is_empty());
        }
        _ => panic!("expected a constant"),
    }
    assert!(matches!(&p[1], Decl::SExpr(Expr::Var(v)) if v == "x"));
}

#[test]
fn test_tuples() {
    let p = parses("(1, 'a', True)\nswap (a, b) = (b, a)\n");
    assert_eq!(p.len(), 2);
    assert!(matches!(&p[0], Decl::SExpr(Expr::Tuple(es)) if es.len() == 3));
    match &p[1] {
        Decl::FunDecl(_, params, Expr::Case(_, alts)) => {
            assert_eq!(params.len(), 1);
            assert!(matches!(&alts[0].0, Pattern::Tuple(ps) if ps.len() == 2));
        }
        _ => panic!("expected a function over a tuple"),
    }
}

#[test]
fn tokens_of_a_line() {
    let toks = match tokenize("f x = 'c' -- note\n  [10, ..2..] `mod` \"é\"\ng") {
        Ok(t) => t,
        Err(_) => panic!("tokenize failed"),
    };
    assert_eq!(toks.len(), 14);
    assert!(matches!(&toks[0].token, Token::Name(n) if n == "f"));
    assert!(toks[0].starts_decl);
    assert!(matches!(&toks[2].token, Token::Sym(Sym::Equals)));
    assert!(matches!(&toks[3].token, Token::Char('c')));
    assert!(matches!(&toks[4].token, Token::Sym(Sym::LBracket)));
    assert!(!toks[4].starts_decl);
    assert_eq!(toks[4].line, 2);
    assert!(matches!(&toks[5].token, Token::Int(10)));
    assert!(matches!(&toks[7].token, Token::Sym(Sym::DotDot)));
    assert!(matches!(&toks[11].token, Token::Op(Op::Mod)));
    assert!(matches!(&toks[12].token, Token::Str(s) if s == "é"));
    assert!(matches!(&toks[13].token, Token::Name(n) if n == "g"));
    assert!(toks[13].starts_decl);
}

#[test]
fn integer_overflow_is_a_syntax_error() {
    assert!(matches!(
        minihs::lexer::tokenize("99999999999999999999"),
        Err(minihs::lower::ParsingError::SyntaxError(1, _))
    ));
}
