use minihs::ast::{Decl, Expr, Pattern};
use minihs::lower::{gen_arg_name, is_bound, lower_equations, rename_expr, ParsingError};
use minihs::parse::parse;

fn v(n: &str) -> Expr {
    Expr::Var(n.to_string())
}

#[test]
fn renaming_respects_shadowing() {
    let e = Expr::Application(
        Box::new(Expr::Lambda("x".to_string(), Box::new(v("x")))),
        Box::new(v("x")),
    );
    match rename_expr(&e, &"x".to_string(), &"y".to_string()) {
        Expr::Application(f, a) => {
            assert!(matches!(*f, Expr::Lambda(ref p, ref b) if p == "x" && matches!(**b, Expr::Var(ref n) if n == "x")));
            assert!(matches!(*a, Expr::Var(ref n) if n == "y"));
        }
        _ => panic!("shape changed"),
    }
}

#[test]
fn bound_variables_in_patterns() {
    let p = Pattern::List(Box::new(Pattern::Var("h".to_string())), Box::new(Pattern::Wildcard));
    assert!(is_bound(&p, &"h".to_string()));
    assert!(!is_bound(&p, &"t".to_string()));
}

#[test]
fn argument_names() {
    assert_eq!(gen_arg_name(&"f".to_string(), 12), "f:arg12");
}

#[test]
fn duplicate_constant_is_rejected() {
    let r = lower_equations("c".to_string(), &vec![(vec![], v("a")), (vec![], v("b"))]);
    assert!(matches!(r, Err(ParsingError::MultipleDefinitions(n)) if n == "c"));
}

#[test]
fn varying_arity_is_rejected() {
    let r = parse("f x = x\nf x y = x\n");
    assert!(matches!(r, Err(ParsingError::VaryingArity(n)) if n == "f"));
}

#[test]
fn syntax_error_names_the_line() {
    match parse("x = 1\ny = (2\n") {
        Err(ParsingError::SyntaxError(line, _)) => assert_eq!(line, 2),
        _ => panic!("expected a syntax error"),
    }
}

#[test]
fn single_variable_equation_keeps_its_name() {
    let r = lower_equations("id".to_string(), &vec![(vec![Pattern::Var("x".to_string())], v("x"))]);
    match r {
        Ok(Decl::FunDecl(n, ps, Expr::Var(b))) => {
            assert_eq!(n, "id");
            assert_eq!(ps, vec!["x".to_string()]);
            assert_eq!(b, "x");
        }
        _ => panic!("expected id x = x"),
    }
}

#[test]
fn application_multiple_args_test() {
    let program = parse("f x y\n").unwrap_or_else(|_| panic!("parse failed"));
    match &program[0] {
        Decl::SExpr(Expr::Application(fx, y)) => {
            assert!(matches!(&**y, Expr::Var(n) if n == "y"));
            match &**fx {
                Expr::Application(f, x) => {
                    assert!(matches!(&**f, Expr::Var(n) if n == "f"));
                    assert!(matches!(&**x, Expr::Var(n) if n == "x"));
                }
                _ => panic!("expected f x"),
            }
        }
        _ => panic!("expected an application"),
    }
}

#[test]
fn constant_then_function_is_an_arity_mismatch() {
    assert!(matches!(parse("f = 1\nf x = 2\n"), Err(ParsingError::VaryingArity(n)) if n == "f"));
}

#[test]
fn redefinition_after_another_item_is_rejected() {
    assert!(matches!(parse("f = 1\ng = 2\nf = 3\n"), Err(ParsingError::MultipleDefinitions(n)) if n == "f"));
}
