use minihs::ast::Type;
use minihs::parse::parse;
use minihs::subst::{subst_combine, Substitution, TypingError};
use minihs::tyenv::{fresh_name, scvs_given_te, TypeScheme, TypingEnvironment};
use minihs::typecheck::{schematic_vars, scvs_in_type_signature, typecheck};
use minihs::types::{sub_type, tvars_in};
use minihs::unify::unify;

fn var(n: &str) -> Type {
    Type::TypeVariable(n.to_string())
}

fn fun(a: Type, b: Type) -> Type {
    Type::Function(Box::new(a), Box::new(b))
}

fn checks(src: &str) -> bool {
    let program = parse(src).unwrap_or_else(|_| panic!("parse failed"));
    typecheck(&program).is_ok()
}

#[test]
fn occurs_check_rejects_infinite_type() {
    let r = unify(Substitution::id_subst(), &var("a"), &fun(var("a"), var("a")));
    assert!(matches!(r, Err(TypingError::DuplicateTypeVariable(n)) if n == "a"));
}

#[test]
fn unification_is_symmetric_on_examples() {
    let pairs = vec![
        (var("a"), Type::Int),
        (fun(var("a"), Type::Bool), fun(Type::Int, var("b"))),
        (Type::List(Box::new(var("a"))), Type::List(Box::new(Type::Char))),
        (Type::Int, Type::Bool),
        (Type::Tuple(vec![Type::Int]), Type::Tuple(vec![Type::Int, Type::Int])),
    ];
    for (a, b) in pairs {
        let ab = unify(Substitution::id_subst(), &a, &b);
        let ba = unify(Substitution::id_subst(), &b, &a);
        assert_eq!(ab.is_ok(), ba.is_ok());
        if let (Ok(s1), Ok(s2)) = (ab, ba) {
            assert_eq!(
                minihs::display::render_type(&sub_type(&s1, &a)),
                minihs::display::render_type(&sub_type(&s2, &a))
            );
        }
    }
}

#[test]
fn unifier_makes_types_equal() {
    let a = fun(var("a"), Type::List(Box::new(var("b"))));
    let b = fun(Type::Int, Type::List(Box::new(Type::Bool)));
    let s = match unify(Substitution::id_subst(), &a, &b) {
        Ok(s) => s,
        Err(_) => panic!("should unify"),
    };
    assert_eq!(minihs::display::render_type(&sub_type(&s, &a)), "(Int -> [Bool])");
}

#[test]
fn composition_is_associative_on_examples() {
    let s1 = Substitution::from(vec![("a".to_string(), Type::Int)]);
    let s2 = Substitution::from(vec![("b".to_string(), var("a")), ("a".to_string(), Type::Bool)]);
    let s3 = Substitution::from(vec![("c".to_string(), var("b"))]);
    let left = subst_combine(subst_combine(Substitution::from(vec![("a".to_string(), Type::Int)]), Substitution::from(vec![("b".to_string(), var("a")), ("a".to_string(), Type::Bool)])), Substitution::from(vec![("c".to_string(), var("b"))]));
    let right = subst_combine(s1, subst_combine(s2, s3));
    let t = Type::Tuple(vec![var("a"), var("b"), var("c"), var("d")]);
    assert_eq!(
        minihs::display::render_type(&sub_type(&left, &t)),
        minihs::display::render_type(&sub_type(&right, &t))
    );
    assert_eq!(minihs::display::render_type(&sub_type(&left, &t)), "(Int, Int, Int, d)");
}

#[test]
fn substitution_follows_chains() {
    let s = Substitution::from(vec![("a".to_string(), var("b")), ("b".to_string(), Type::Int)]);
    assert_eq!(minihs::display::render_type(&sub_type(&s, &fun(var("a"), var("c")))), "(Int -> c)");
    assert_eq!(minihs::display::render_type(&s.apply(&"a".to_string())), "b");
    assert_eq!(minihs::display::render_type(&s.apply(&"z".to_string())), "z");
}

#[test]
fn exclude_and_range() {
    let s = Substitution::from(vec![("a".to_string(), var("x")), ("b".to_string(), Type::Int)]);
    let e = s.exclude(&vec!["a".to_string()]);
    assert_eq!(minihs::display::render_type(&e.apply(&"a".to_string())), "a");
    assert_eq!(s.range(), vec!["x".to_string()]);
}

#[test]
fn fresh_names_count_up() {
    let mut c: u64 = 7;
    let a = fresh_name(&mut c).unwrap_or_else(|_| panic!("fresh"));
    let b = fresh_name(&mut c).unwrap_or_else(|_| panic!("fresh"));
    assert_eq!(a, "<7>");
    assert_eq!(b, "<8>");
    let mut last: u64 = u64::MAX;
    assert!(matches!(fresh_name(&mut last), Err(TypingError::NameSupplyExhausted)));
}

#[test]
fn type_variables_and_schematic_variables() {
    let t = fun(var("a"), fun(var("B"), var("a")));
    assert_eq!(tvars_in(&t), vec!["a".to_string(), "B".to_string(), "a".to_string()]);
    assert_eq!(scvs_in_type_signature(&t), vec!["a".to_string()]);
    let mut env = TypingEnvironment::new();
    env.insert("f".to_string(), TypeScheme { vars: vec![], body: var("a") });
    assert_eq!(scvs_given_te(&fun(var("a"), var("b")), &env), vec!["b".to_string()]);
}

#[test]
fn basic_types() {
    assert!(checks("x :: Int\nx = 1\ny :: Bool\ny = True\nc = 'c'\ns = \"s\"\n"));
}

#[test]
fn type_alias() {
    assert!(checks("type Number = Int\nn :: Number\nn = 3\n"));
}

#[test]
fn list_types() {
    assert!(checks("xs :: [Int]\nxs = [1, 2, 3]\nys = 1 : xs\n"));
}

#[test]
fn higher_order_types() {
    assert!(checks("apply :: (a -> b) -> a -> b\napply f x = f x\napply (\\y -> y + 1) 2\n"));
}

#[test]
fn polymorphic_tuple() {
    assert!(checks("pair x y = (x, y)\npair 1 True\n"));
}

#[test]
fn negative_arg_types_direct() {
    assert!(!checks("inc :: Int -> Int\ninc x = x + 1\ninc True\n"));
}

#[test]
fn heterogeneous_list_is_rejected() {
    assert!(!checks("[1, True]\n"));
}

#[test]
fn unknown_identifier() {
    let program = parse("nowhere 1\n").unwrap_or_else(|_| panic!("parse failed"));
    assert!(matches!(typecheck(&program), Err(TypingError::UnknownIdentifier(n)) if n == "nowhere"));
}

#[test]
fn typing_error_message() {
    let e = TypingError::CannotUnify(Type::Int, Type::List(Box::new(Type::Bool)));
    assert_eq!(e.message(), "Cannot unify types Int and [Bool]");
}

#[test]
fn schematic_vars_follow_flags() {
    let vars = vec!["a".to_string(), "T".to_string(), "a".to_string(), "b".to_string()];
    let flags = vec![true, false, true, true];
    assert_eq!(schematic_vars(&vars, &flags), vec!["a".to_string(), "b".to_string()]);
}

#[test]
fn range_ignores_hidden_bindings() {
    let s = Substitution::from(vec![("a".to_string(), var("x")), ("a".to_string(), var("y"))]);
    assert_eq!(s.range(), vec!["y".to_string()]);
}

#[test]
fn instantiation_avoids_given_names() {
    let mut c: u64 = 0;
    let r = minihs::tyenv::instantiation(
        &vec!["a".to_string(), "b".to_string()],
        &vec!["<0>".to_string(), "<2>".to_string()],
        &mut c,
    );
    match r {
        Ok(bs) => {
            assert_eq!(minihs::display::render_type(&bs[0].1), "<1>");
            assert_eq!(minihs::display::render_type(&bs[1].1), "<3>");
        }
        Err(_) => panic!("instantiation failed"),
    }
    assert_eq!(c, 4);
}

#[test]
fn type_names_in_signatures() {
    for (name, shown) in [("Int", "Int"), ("Integer", "Int"), ("Bool", "Bool"), ("Char", "Char"), ("String", "String"), ("Tree", "Tree")] {
        let t = minihs::parse::named_type(&name.to_string());
        assert_eq!(minihs::display::render_type(&t), shown);
    }
}

#[test]
fn substitution_clone_keeps_bindings() {
    let s = Substitution::from(vec![("a".to_string(), Type::Int)]);
    let c = s.clone();
    assert_eq!(minihs::display::render_type(&c.apply(&"a".to_string())), "Int");
    assert_eq!(c.num_bindings(), 1);
}
