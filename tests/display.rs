use minihs::ast::{Decl, Expr, Literal, Op, Pattern, Type};
use minihs::display::{render_decl, render_expr, render_int, render_op, render_pattern, render_type, render_value};
use minihs::value::{Env, RunTimeError, Value};

#[test]
fn renders_integers() {
    assert_eq!(render_int(0), "0");
    assert_eq!(render_int(-42), "-42");
    assert_eq!(render_int(i64::MIN), "-9223372036854775808");
}

#[test]
fn renders_values() {
    let list = Value::List(
        Box::new(Value::Literal(Literal::Char('x'))),
        Box::new(Value::List(Box::new(Value::Literal(Literal::Bool(false))), Box::new(Value::EmptyList))),
    );
    assert_eq!(render_value(&list), "['x', False]");
    let t = Value::Tuple(vec![Value::Literal(Literal::String("s".to_string())), Value::EmptyList]);
    assert_eq!(render_value(&t), "(\"s\", [])");
    let f = Value::Closure(Expr::Var("x".to_string()), vec!["x".to_string()], Env::new());
    assert_eq!(render_value(&f), "<function>");
}

#[test]
fn renders_types() {
    let t = Type::Function(
        Box::new(Type::Tuple(vec![Type::Int, Type::Char])),
        Box::new(Type::List(Box::new(Type::TypeVariable("a".to_string())))),
    );
    assert_eq!(render_type(&t), "((Int, Char) -> [a])");
}

#[test]
fn renders_syntax() {
    let e = Expr::BinOp(
        Box::new(Expr::Application(Box::new(Expr::Var("f".to_string())), Box::new(Expr::Literal(Literal::Int(1))))),
        Op::Append,
        Box::new(Expr::Lambda("y".to_string(), Box::new(Expr::Var("y".to_string())))),
    );
    assert_eq!(render_expr(&e), "((f 1) ++ (\\y -> y))");
    let p = Pattern::FakeTuple(vec![
        Pattern::List(Box::new(Pattern::Var("x".to_string())), Box::new(Pattern::Wildcard)),
        Pattern::EmptyList,
    ]);
    assert_eq!(render_pattern(&p), "(x:_) []");
    assert_eq!(render_op(Op::Mod), "`mod`");
    let d = Decl::FunDecl("g".to_string(), vec!["a".to_string(), "b".to_string()], Expr::Var("a".to_string()));
    assert_eq!(render_decl(&d), "g a b = a");
    let s = Decl::TypeSignature("g".to_string(), Type::Bool);
    assert_eq!(render_decl(&s), "g :: Bool");
}

#[test]
fn runtime_error_messages() {
    assert_eq!(
        RunTimeError::VariableNotFound("q".to_string()).message(),
        "Could not find unbound variable q"
    );
    assert_eq!(
        RunTimeError::TypeError(Type::Int, "list".to_string()).message(),
        "Expected type Int, but found list"
    );
}

#[test]
fn scope_lookup_and_update() {
    let mut env = Env::new();
    env.add_function("a".to_string(), Value::Literal(Literal::Int(1)));
    let env2 = env.extended("a".to_string(), Value::Literal(Literal::Int(2)));
    assert!(env2.contains(&"a".to_string()));
    assert!(!env2.contains(&"b".to_string()));
    match env2.get(&"a".to_string()) {
        Ok(v) => assert_eq!(render_value(&v), "2"),
        Err(_) => panic!("bound"),
    }
    let mut env3 = env2;
    env3.update_value(&"a".to_string(), Value::Literal(Literal::Int(3)));
    match env3.get(&"a".to_string()) {
        Ok(v) => assert_eq!(render_value(&v), "3"),
        Err(_) => panic!("bound"),
    }
    assert!(matches!(env.get(&"zz".to_string()), Err(RunTimeError::VariableNotFound(n)) if n == "zz"));
}
