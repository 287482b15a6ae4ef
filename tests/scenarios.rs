use minihs::interpreter::Interpreter;
use minihs::parse::parse;
use minihs::subst::TypingError;
use minihs::typecheck::typecheck;
use minihs::value::RunTimeError;

fn run(src: &str) -> (Vec<String>, Result<(), RunTimeError>) {
    let program = parse(src).unwrap_or_else(|_| panic!("parse failed"));
    assert!(typecheck(&program).is_ok(), "program should typecheck");
    Interpreter::new(program).run()
}

#[test]
fn arithmetic_and_printing() {
    let (out, res) = run("1 + 2 * 3\n");
    assert!(res.is_ok());
    assert_eq!(out, vec!["> 7".to_string()]);
}

#[test]
fn fib() {
    let src = "fib :: Int -> Int\nfib 0 = 0\nfib 1 = 1\nfib n = fib (n - 1) + fib (n - 2)\n\nfib 10\n";
    let (out, res) = run(src);
    assert!(res.is_ok());
    assert_eq!(out, vec!["> 55".to_string()]);
}

#[test]
fn laziness_over_infinite_range() {
    let src = "take :: Int -> [Int] -> [Int]\ntake 0 xs = []\ntake n (x:xs) = x : take (n - 1) xs\n\ntake 5 [1, ..1..]\n";
    let (out, res) = run(src);
    assert!(res.is_ok());
    assert_eq!(out, vec!["> [1, 2, 3, 4, 5]".to_string()]);
}

#[test]
fn let_polymorphism() {
    let (out, res) = run("let id = \\x -> x in (id 1, id True)\n");
    assert!(res.is_ok());
    assert_eq!(out, vec!["> (1, True)".to_string()]);
}

#[test]
fn pattern_match_failure() {
    let src = "head :: [a] -> a\nhead (x:xs) = x\n\nhead []\n";
    let (out, res) = run(src);
    assert!(out.is_empty());
    assert!(matches!(res, Err(RunTimeError::NonExhaustivePattern)));
}

#[test]
fn type_error_is_caught() {
    let program = parse("1 + True\n").unwrap_or_else(|_| panic!("parse failed"));
    match typecheck(&program) {
        Err(TypingError::CannotUnify(a, b)) => {
            let names = (minihs::display::render_type(&a), minihs::display::render_type(&b));
            assert!(
                names == ("Bool".to_string(), "Int".to_string())
                    || names == ("Int".to_string(), "Bool".to_string())
            );
        }
        _ => panic!("expected a cannot-unify error"),
    }
}

#[test]
fn typechecking_twice_agrees() {
    let src = "compose f g x = f (g x)\nlet id = \\x -> x in id 3\n";
    let program = parse(src).unwrap_or_else(|_| panic!("parse failed"));
    let first = minihs::typecheck::typecheck_program(&program);
    let second = minihs::typecheck::typecheck_program(&program);
    assert!(first.is_ok() && second.is_ok());
}

#[test]
fn multi_equation_matches_explicit_case() {
    let multi = "sign 0 = 0\nsign n = if n < 0 then 0 - 1 else 1\n\n(sign 0, sign 5, sign (0 - 7))\n";
    let single = "sign n = case n of { 0 -> 0; m -> if m < 0 then 0 - 1 else 1 }\n\n(sign 0, sign 5, sign (0 - 7))\n";
    let (a, ra) = run(multi);
    let (b, rb) = run(single);
    assert!(ra.is_ok() && rb.is_ok());
    assert_eq!(a, vec!["> (0, 1, -1)".to_string()]);
    assert_eq!(a, b);
}

#[test]
fn two_argument_equations() {
    let src = "add 0 y = y\nadd x y = x + y\n\nadd 0 4\nadd 3 4\n";
    let (out, res) = run(src);
    assert!(res.is_ok());
    assert_eq!(out, vec!["> 4".to_string(), "> 7".to_string()]);
}

#[test]
fn lists_append_and_equality() {
    let src = "[1, 2] ++ [3]\n[1, 2] == [1, 2]\n(1, 'a') /= (1, 'b')\n[]\n\"hi\"\n";
    let (out, res) = run(src);
    assert!(res.is_ok());
    assert_eq!(
        out,
        vec![
            "> [1, 2, 3]".to_string(),
            "> True".to_string(),
            "> True".to_string(),
            "> []".to_string(),
            "> \"hi\"".to_string(),
        ]
    );
}

#[test]
fn division_and_remainder_truncate() {
    let src = "(7 / 2, (0 - 7) / 2, 7 `mod` 3, (0 - 7) `mod` 3)\n";
    let (out, res) = run(src);
    assert!(res.is_ok());
    assert_eq!(out, vec!["> (3, -3, 1, -1)".to_string()]);
}

#[test]
fn division_by_zero_is_an_error() {
    let (out, res) = run("1 / 0\n");
    assert!(out.is_empty());
    assert!(matches!(res, Err(RunTimeError::DivisionByZero)));
}

#[test]
fn bounded_range_and_ignored_infinite_argument() {
    let src = "const x y = x\n\n[1, ..2.., 7]\nconst 3 [1, ..1..]\n";
    let (out, res) = run(src);
    assert!(res.is_ok());
    assert_eq!(out, vec!["> [1, 3, 5, 7]".to_string(), "> 3".to_string()]);
}

#[test]
fn forcing_an_infinite_list_runs_out_of_fuel() {
    let program = parse("[1, ..1..]\n").unwrap_or_else(|_| panic!("parse failed"));
    let (out, res) = Interpreter::new(program).with_fuel(200).run();
    assert!(out.is_empty());
    assert!(matches!(res, Err(RunTimeError::OutOfFuel)));
}

#[test]
fn runtime_error_stops_the_run() {
    let (out, res) = run("head (x:xs) = x\n1\nhead []\n2\n");
    assert_eq!(out, vec!["> 1".to_string()]);
    assert!(matches!(res, Err(RunTimeError::NonExhaustivePattern)));
}

#[test]
fn fib_test() {
    let src = "fib :: Int -> Int\nfib 0 = 0\nfib 1 = 1\nfib n = fib (n - 1) + fib (n - 2)\n\nfib 1\nfib 7\n";
    let program = parse(src).unwrap_or_else(|_| panic!("parse failed"));
    let (out, res) = Interpreter::new(program).run();
    assert!(res.is_ok());
    assert_eq!(out, vec!["> 1".to_string(), "> 13".to_string()]);
}

#[test]
fn lazy_ignore_inf() {
    let src = "ignore :: [Int] -> Int\nignore xs = 42\n\nignore [0, ..1..]\n";
    let (out, res) = run(src);
    assert!(res.is_ok());
    assert_eq!(out, vec!["> 42".to_string()]);
}

#[test]
fn infinite_ranges() {
    let src = "first (x:xs) = x\nsecond (x:y:ys) = y\n\nfirst [5, ..3..]\nsecond [5, ..3..]\n";
    let (out, res) = run(src);
    assert!(res.is_ok());
    assert_eq!(out, vec!["> 5".to_string(), "> 8".to_string()]);
}

#[test]
fn partly_applied_function_is_printed_as_is() {
    let (out, res) = run("let x = 1 in \\x -> x\n");
    assert!(res.is_ok());
    assert_eq!(out, vec!["> <function>".to_string()]);
}

#[test]
fn case_alternatives_do_not_share_bindings() {
    let program = parse("f n = case n of { x -> 1; y -> x }\n").unwrap_or_else(|_| panic!("parse failed"));
    assert!(matches!(typecheck(&program), Err(TypingError::UnknownIdentifier(n)) if n == "x"));
}

#[test]
fn fake_tuple_matches_like_tuple() {
    let funs = minihs::value::Env::new();
    let env = minihs::value::Env::new();
    let v = minihs::value::Value::Tuple(vec![]);
    let fake = minihs::eval::matches_value(&funs, &env, &minihs::ast::Pattern::FakeTuple(vec![]), &v, 2);
    let real = minihs::eval::matches_value(&funs, &env, &minihs::ast::Pattern::Tuple(vec![]), &v, 2);
    assert!(matches!(fake, Ok(Some(_))));
    assert!(matches!(real, Ok(Some(_))));
}

#[test]
fn tuple_patterns_of_another_arity_do_not_match() {
    let funs = minihs::value::Env::new();
    let env = minihs::value::Env::new();
    let v = minihs::value::Value::Tuple(vec![
        minihs::value::Value::Literal(minihs::ast::Literal::Int(1)),
        minihs::value::Value::Literal(minihs::ast::Literal::Int(2)),
    ]);
    let p = minihs::ast::Pattern::Tuple(vec![minihs::ast::Pattern::Wildcard]);
    assert!(matches!(minihs::eval::matches_value(&funs, &env, &p, &v, 10), Ok(None)));
    let q = minihs::ast::Pattern::Tuple(vec![minihs::ast::Pattern::Wildcard, minihs::ast::Pattern::Wildcard]);
    assert!(matches!(minihs::eval::matches_value(&funs, &env, &q, &v, 10), Ok(Some(_))));
}

#[test]
fn scope_extend_consumes() {
    let env = minihs::value::Env::new();
    let env = env.extend("z".to_string(), minihs::value::Value::EmptyList);
    assert!(env.contains(&"z".to_string()));
}
