//! The typechecker: Hindley-Milner inference with let-polymorphism.
use vstd::prelude::*;

use crate::ast::{
    Decl, DeclModel, Expr, List, Literal, Op, Pattern, Ty, Type, alts_model, exprs_model,
    lemma_alts_model, lemma_exprs_model, lemma_patterns_model, list_model, names_model,
    patterns_model, types_model, lemma_types_model_push,
};
use crate::subst::{Binding, Substitution, TypeErr, TypingError, subst_combine};
use crate::tyenv::{
    dedup, env_type_names, instantiation, names_dedup,
    EnvModel, TypeScheme, TypingEnvironment, fresh_name, fresh_renaming, scvs_given_te,
    sub_type_env,
};
use crate::types::{sub_type, sub_tys, tvars_in};
use crate::typing::{
    Checked, Inferred, PatInferred, binop_spec, char_is_lowercase, check_decl, check_decls,
    check_fun, check_program, fun_type, program_outcome, infer, infer_alts, infer_list, infer_pat, infer_pats,
    infer_tuple, insert_params, lit_ty, lowercase_initial, sig_scvs,
};
use crate::unify::unify;

verus! {

/// Whether an executable inference result agrees with the model.
pub open spec fn inferred_as(r: Result<(Substitution, Type), TypingError>, c: u64, m: Inferred) -> bool {
    match (r, m) {
        (Ok((s, t)), Ok((ms, mt, mn))) => s@ == ms && t@ == mt && c as nat == mn,
        (Err(a), Err(b)) => a@ == b,
        _ => false,
    }
}

/// Whether an executable pattern-inference result agrees with the model.
pub open spec fn pat_inferred_as(
    r: Result<(Substitution, Type), TypingError>,
    env: EnvModel,
    c: u64,
    m: PatInferred,
) -> bool {
    match (r, m) {
        (Ok((s, t)), Ok((menv, ms, mt, mn))) => env == menv && s@ == ms && t@ == mt && c as nat == mn,
        (Err(a), Err(b)) => a@ == b,
        _ => false,
    }
}

fn list_of(t: Type) -> (r: Type)
    ensures
        r@ == Ty::List(Box::new(t@)),
{
    Type::List(Box::new(t))
}

fn no_names() -> (r: Vec<String>)
    ensures
        names_model(r@) == Seq::<Seq<char>>::empty(),
{
    let r: Vec<String> = Vec::new();
    proof {
        assert(names_model(r@) =~= Seq::<Seq<char>>::empty());
    }
    r
}

fn lit_type(l: &Literal) -> (r: Type)
    ensures
        r@ == lit_ty(l@),
{
    match l {
        Literal::Int(_) => Type::Int,
        Literal::Bool(_) => Type::Bool,
        Literal::Char(_) => Type::Char,
        Literal::String(_) => Type::String,
    }
}

fn unify_result2(r: Result<Substitution, TypingError>, t: Type) -> (out: Result<(Substitution, Type), TypingError>)
    ensures
        match (out, r) {
            (Ok((a, b)), Ok(c)) => a@ == c@ && b@ == t@,
            (Err(a), Err(b)) => a@ == b@,
            _ => false,
        },
{
    match r {
        Ok(s) => Ok((s, t)),
        Err(e) => Err(e),
    }
}

fn typecheck_binop(op: Op, s: Substitution, lt: Type, rt: Type) -> (r: Result<(Substitution, Type), TypingError>)
    ensures
        match (r, binop_spec(op, s@, lt@, rt@)) {
            (Ok((a, b)), Ok((c, d))) => a@ == c && b@ == d,
            (Err(a), Err(b)) => a@ == b,
            _ => false,
        },
{
    match op {
        Op::Add | Op::Sub | Op::Mul | Op::Mod | Op::Div => match unify(s, &lt, &Type::Int) {
            Ok(s1) => unify_result2(unify(s1, &rt, &Type::Int), Type::Int),
            Err(e) => Err(e),
        },
        Op::Eq | Op::Neq => unify_result2(unify(s, &lt, &rt), Type::Bool),
        Op::Lt | Op::Gt | Op::Le | Op::Ge => match unify(s, &lt, &Type::Int) {
            Ok(s1) => unify_result2(unify(s1, &lt, &rt), Type::Bool),
            Err(e) => Err(e),
        },
        Op::And | Op::Or => match unify(s, &lt, &Type::Bool) {
            Ok(s1) => unify_result2(unify(s1, &lt, &rt), Type::Bool),
            Err(e) => Err(e),
        },
        Op::Append => match unify(s, &lt, &rt) {
            Ok(s1) => {
                let r = unify(s1, &lt, &rt);
                unify_result2(r, lt)
            },
            Err(e) => Err(e),
        },
        Op::Cons => {
            let list_type = list_of(lt);
            let r = unify(s, &list_type, &rt);
            unify_result2(r, list_type)
        },
    }
}

/// Infers the type of an expression: a substitution and a type.
pub fn typecheck_expression(type_env: &TypingEnvironment, expr: &Expr, counter: &mut u64) -> (r: Result<
    (Substitution, Type),
    TypingError,
>)
    ensures
        inferred_as(r, *final(counter), infer(type_env@, expr@, *old(counter) as nat)),
    decreases expr,
{
    match expr {
        Expr::Var(x) => {
            match type_env.get(x) {
                None => Err(TypingError::UnknownIdentifier(x.clone())),
                Some(scheme) => {
                    let avoid = env_type_names(type_env);
                    match instantiation(&scheme.vars, &avoid, counter) {
                        Ok(map) => {
                            let phi = Substitution::from(map);
                            let new_type = sub_type(&phi, &scheme.body);
                            Ok((Substitution::id_subst(), new_type))
                        },
                        Err(e) => Err(e),
                    }
                },
            }
        },
        Expr::Application(f, e) => {
            let (phi, type_f) = match typecheck_expression(type_env, f, counter) {
                Ok(p) => p,
                Err(er) => return Err(er),
            };
            let new_env = sub_type_env(&phi, type_env);
            let (psi, type_e) = match typecheck_expression(&new_env, e, counter) {
                Ok(p) => p,
                Err(er) => return Err(er),
            };
            let subst = subst_combine(psi, phi);
            let tv_name = match fresh_name(counter) {
                Ok(n) => n,
                Err(er) => return Err(er),
            };
            let t = Type::TypeVariable(tv_name.clone());
            match unify(subst, &type_f, &Type::Function(Box::new(type_e), Box::new(Type::TypeVariable(tv_name)))) {
                Ok(s) => Ok((s, t)),
                Err(er) => Err(er),
            }
        },
        Expr::If(cond, then_branch, else_branch) => {
            let (phi, type_cond) = match typecheck_expression(type_env, cond, counter) {
                Ok(p) => p,
                Err(er) => return Err(er),
            };
            let (subst_then, type_then) = match typecheck_expression(type_env, then_branch, counter) {
                Ok(p) => p,
                Err(er) => return Err(er),
            };
            let (subst_else, type_else) = match typecheck_expression(type_env, else_branch, counter) {
                Ok(p) => p,
                Err(er) => return Err(er),
            };
            let cond_subst = match unify(phi, &type_cond, &Type::Bool) {
                Ok(s) => s,
                Err(er) => return Err(er),
            };
            let subst_branches = subst_combine(subst_then, subst_else);
            let subst = subst_combine(cond_subst, subst_branches);
            match unify(subst, &type_then, &type_else) {
                Ok(s) => Ok((s, type_then)),
                Err(er) => Err(er),
            }
        },
        Expr::Lambda(arg, body) => {
            let fresh = match fresh_name(counter) {
                Ok(n) => n,
                Err(er) => return Err(er),
            };
            let mut lambda_env = type_env.clone();
            lambda_env.insert(
                arg.clone(),
                TypeScheme { vars: no_names(), body: Type::TypeVariable(fresh.clone()) },
            );
            match typecheck_expression(&lambda_env, body, counter) {
                Ok((subst, ret_type)) => Ok(
                    (subst, Type::Function(Box::new(Type::TypeVariable(fresh)), Box::new(ret_type))),
                ),
                Err(er) => Err(er),
            }
        },
        Expr::Let(var, expr1, expr2) => {
            let (subst1, var_type) = match typecheck_expression(type_env, expr1, counter) {
                Ok(p) => p,
                Err(er) => return Err(er),
            };
            let mut let_env = sub_type_env(&subst1, type_env);
            let scvs = scvs_given_te(&var_type, &let_env);
            let map = match fresh_renaming(&scvs, counter) {
                Ok(m) => m,
                Err(er) => return Err(er),
            };
            let mapping = Substitution::from(map);
            let new_type = sub_type(&mapping, &var_type);
            let scheme_vars = mapping.range();
            proof {
                assert(names_model(scheme_vars@) =~= scheme_vars@.map_values(|n: String| n@));
            }
            let_env.insert(var.clone(), TypeScheme { vars: scheme_vars, body: new_type });
            match typecheck_expression(&let_env, expr2, counter) {
                Ok((subst2, return_type)) => Ok((subst_combine(subst2, subst1), return_type)),
                Err(er) => Err(er),
            }
        },
        Expr::Case(case_expr, cases) => {
            let (expr_subst, case_expr_type) = match typecheck_expression(type_env, case_expr, counter) {
                Ok(p) => p,
                Err(er) => return Err(er),
            };
            proof {
                assert(decreases_to!(*expr => expr->Case_1));
            }
            typecheck_cases(type_env.clone(), cases, counter, expr_subst, case_expr_type)
        },
        Expr::BinOp(left, op, right) => {
            let (left_subst, left_type) = match typecheck_expression(type_env, left, counter) {
                Ok(p) => p,
                Err(er) => return Err(er),
            };
            let (right_subst, right_type) = match typecheck_expression(type_env, right, counter) {
                Ok(p) => p,
                Err(er) => return Err(er),
            };
            let subst = subst_combine(left_subst, right_subst);
            typecheck_binop(*op, subst, left_type, right_type)
        },
        Expr::Tuple(exprs) => {
            proof {
                assert(decreases_to!(*expr => expr->Tuple_0));
            }
            typecheck_tuple(type_env, exprs, counter)
        },
        Expr::List(es) => typecheck_list(type_env, es, counter),
        Expr::Range(from, step, to) => {
            let (subst_from, type_from) = match typecheck_expression(type_env, from, counter) {
                Ok(p) => p,
                Err(er) => return Err(er),
            };
            let subst_from = match unify(subst_from, &type_from, &Type::Int) {
                Ok(s) => s,
                Err(er) => return Err(er),
            };
            let (subst_step, type_step) = match typecheck_expression(type_env, step, counter) {
                Ok(p) => p,
                Err(er) => return Err(er),
            };
            let subst_step = match unify(subst_step, &type_step, &Type::Int) {
                Ok(s) => s,
                Err(er) => return Err(er),
            };
            let subst = subst_combine(subst_step, subst_from);
            match to {
                Some(to) => {
                    let (subst_to, type_to) = match typecheck_expression(type_env, to, counter) {
                        Ok(p) => p,
                        Err(er) => return Err(er),
                    };
                    match unify(subst_to, &type_to, &Type::Int) {
                        Ok(subst_to) => Ok((subst_combine(subst_to, subst), list_of(Type::Int))),
                        Err(er) => Err(er),
                    }
                },
                None => Ok((subst, list_of(Type::Int))),
            }
        },
        Expr::Literal(l) => Ok((Substitution::id_subst(), lit_type(l))),
    }
}

fn typecheck_cases(
    env: TypingEnvironment,
    cases: &Vec<(Pattern, Expr)>,
    counter: &mut u64,
    subst0: Substitution,
    case_expr_type: Type,
) -> (r: Result<(Substitution, Type), TypingError>)
    ensures
        inferred_as(
            r,
            *final(counter),
            infer_alts(env@, alts_model(cases@), *old(counter) as nat, subst0@, case_expr_type@, Option::None),
        ),
    decreases cases,
{
    let ghost all = alts_model(cases@);
    let ghost init = infer_alts(env@, all, *counter as nat, subst0@, case_expr_type@, Option::None);
    proof {
        lemma_alts_model(cases@);
        assert(all.skip(0) =~= all);
    }
    let mut subst = subst0;
    let mut return_type: Option<Type> = None;
    let mut i: usize = 0;
    while i < cases.len()
        invariant
            i <= cases.len(),
            all == alts_model(cases@),
            all.len() == cases.len(),
            forall|j: int| 0 <= j < cases.len() ==> #[trigger] all[j] == (cases@[j].0@, cases@[j].1@),
            init == infer_alts(
                env@,
                all.skip(i as int),
                *counter as nat,
                subst@,
                case_expr_type@,
                match return_type {
                    Option::Some(t) => Option::Some(t@),
                    Option::None => Option::None,
                },
            ),
            init == infer_alts(env@, all, *old(counter) as nat, subst0@, case_expr_type@, Option::None),
        decreases cases.len() - i,
    {
        proof {
            assert(all.skip(i as int)[0] == all[i as int]);
            assert(all.skip(i as int).skip(1) =~= all.skip(i + 1));
            assert(all.skip(i as int).len() > 0);
            assert(decreases_to!(*cases => cases[i as int]));
            assert(decreases_to!(cases[i as int] => cases[i as int].1));
        }
        let mut type_env = env.clone();
        let (pattern_subst, pattern_type) = match typecheck_pattern(&mut type_env, subst, &cases[i].0, counter) {
            Ok(p) => p,
            Err(er) => return Err(er),
        };
        let s1 = match unify(pattern_subst, &case_expr_type, &pattern_type) {
            Ok(s) => s,
            Err(er) => return Err(er),
        };
        let (case_subst, case_body_type) = match typecheck_expression(&type_env, &cases[i].1, counter) {
            Ok(p) => p,
            Err(er) => return Err(er),
        };
        let s2 = subst_combine(case_subst, s1);
        let s3 = match &return_type {
            Some(body_type) => match unify(s2, body_type, &case_body_type) {
                Ok(s) => s,
                Err(er) => return Err(er),
            },
            None => s2,
        };
        subst = s3;
        return_type = Some(case_body_type);
        i = i + 1;
    }
    match return_type {
        Some(t) => Ok((subst, t)),
        None => match fresh_name(counter) {
            Ok(f) => Ok((subst, Type::TypeVariable(f))),
            Err(er) => Err(er),
        },
    }
}

fn typecheck_tuple(type_env: &TypingEnvironment, exprs: &Vec<Expr>, counter: &mut u64) -> (r: Result<
    (Substitution, Type),
    TypingError,
>)
    ensures
        inferred_as(
            r,
            *final(counter),
            infer_tuple(type_env@, exprs_model(exprs@), *old(counter) as nat, Seq::empty(), Seq::empty()),
        ),
    decreases exprs,
{
    let ghost all = exprs_model(exprs@);
    let ghost init = infer_tuple(type_env@, all, *counter as nat, Seq::empty(), Seq::empty());
    let mut env = type_env.clone();
    let mut types: Vec<Type> = Vec::new();
    let mut subst = Substitution::id_subst();
    proof {
        lemma_exprs_model(exprs@);
        assert(all.skip(0) =~= all);
        assert(types_model(types@) =~= Seq::<Ty>::empty());
    }
    let mut i: usize = 0;
    while i < exprs.len()
        invariant
            i <= exprs.len(),
            all == exprs_model(exprs@),
            all.len() == exprs.len(),
            forall|j: int| 0 <= j < exprs.len() ==> #[trigger] all[j] == exprs@[j]@,
            init == infer_tuple(env@, all.skip(i as int), *counter as nat, subst@, types_model(types@)),
            init == infer_tuple(type_env@, all, *old(counter) as nat, Seq::empty(), Seq::empty()),
        decreases exprs.len() - i,
    {
        proof {
            assert(all.skip(i as int)[0] == all[i as int]);
            assert(all.skip(i as int).skip(1) =~= all.skip(i + 1));
            assert(all.skip(i as int).len() > 0);
            assert(decreases_to!(*exprs => exprs[i as int]));
        }
        let (expr_subst, typ) = match typecheck_expression(&env, &exprs[i], counter) {
            Ok(p) => p,
            Err(er) => return Err(er),
        };
        env = sub_type_env(&expr_subst, &env);
        subst = subst_combine(expr_subst, subst);
        proof {
            lemma_types_model_push(types@, typ);
        }
        types.push(typ);
        i = i + 1;
    }
    let mut out: Vec<Type> = Vec::new();
    let mut j: usize = 0;
    proof {
        crate::ast::lemma_types_model(types@);
        crate::types::lemma_sub_tys(subst@, subst@.len(), types_model(types@));
    }
    while j < types.len()
        invariant
            j <= types.len(),
            types_model(types@).len() == types.len(),
            forall|k: int| 0 <= k < types.len() ==> #[trigger] types_model(types@)[k] == types@[k]@,
            sub_tys(subst@, subst@.len(), types_model(types@)).len() == types.len(),
            forall|k: int|
                0 <= k < types.len() ==> #[trigger] sub_tys(subst@, subst@.len(), types_model(types@))[k]
                    == crate::types::sub_ty(subst@, subst@.len(), types_model(types@)[k]),
            types_model(out@) == sub_tys(subst@, subst@.len(), types_model(types@)).subrange(0, j as int),
        decreases types.len() - j,
    {
        let t = sub_type(&subst, &types[j]);
        proof {
            lemma_types_model_push(out@, t);
            assert(sub_tys(subst@, subst@.len(), types_model(types@)).subrange(0, j + 1) =~= sub_tys(
                subst@,
                subst@.len(),
                types_model(types@),
            ).subrange(0, j as int).push(t@));
        }
        out.push(t);
        j = j + 1;
    }
    proof {
        assert(sub_tys(subst@, subst@.len(), types_model(types@)).subrange(0, j as int) =~= sub_tys(
            subst@,
            subst@.len(),
            types_model(types@),
        ));
    }
    Ok((subst, Type::Tuple(out)))
}

fn typecheck_list(type_env: &TypingEnvironment, es: &List<Expr>, counter: &mut u64) -> (r: Result<
    (Substitution, Type),
    TypingError,
>)
    ensures
        inferred_as(r, *final(counter), infer_list(type_env@, list_model(es), *old(counter) as nat)),
    decreases es,
{
    match es {
        List::Cons(first, tail) => {
            proof {
                let m = list_model(es);
                assert(m.len() > 0);
                assert(m[0] == first@);
                assert(m.skip(1) =~= list_model(tail));
            }
            let (subst_first, type_first) = match typecheck_expression(type_env, first, counter) {
                Ok(p) => p,
                Err(er) => return Err(er),
            };
            let (subst_tail, type_tail) = match typecheck_list(type_env, tail, counter) {
                Ok(p) => p,
                Err(er) => return Err(er),
            };
            let subst = subst_combine(subst_first, subst_tail);
            let list_type = list_of(type_first);
            match unify(subst, &list_type, &type_tail) {
                Ok(s) => Ok((s, list_type)),
                Err(er) => Err(er),
            }
        },
        List::Empty => match fresh_name(counter) {
            Ok(f) => Ok((Substitution::id_subst(), list_of(Type::TypeVariable(f)))),
            Err(er) => Err(er),
        },
    }
}

/// Infers the type of a pattern, binding its variables in `type_env`.
pub fn typecheck_pattern(
    type_env: &mut TypingEnvironment,
    subst: Substitution,
    pattern: &Pattern,
    counter: &mut u64,
) -> (r: Result<(Substitution, Type), TypingError>)
    ensures
        pat_inferred_as(
            r,
            final(type_env)@,
            *final(counter),
            infer_pat(old(type_env)@, subst@, pattern@, *old(counter) as nat),
        ),
    decreases pattern,
{
    let ghost env0 = type_env@;
    let ghost c0 = *counter;
    let r = match pattern {
        Pattern::Literal(l) => Ok((Substitution::id_subst(), lit_type(l))),
        Pattern::Var(var_name) => {
            let fresh = match fresh_name(counter) {
                Ok(n) => n,
                Err(er) => return Err(er),
            };
            let type_variable = Type::TypeVariable(fresh.clone());
            type_env.insert(var_name.clone(), TypeScheme { vars: no_names(), body: type_variable });
            Ok((Substitution::id_subst(), Type::TypeVariable(fresh)))
        },
        Pattern::List(first, tail) => {
            let (s1, first_type) = match typecheck_pattern(type_env, subst, first, counter) {
                Ok(p) => p,
                Err(er) => return Err(er),
            };
            let (s2, tail_type) = match typecheck_pattern(type_env, s1, tail, counter) {
                Ok(p) => p,
                Err(er) => return Err(er),
            };
            let list_type = list_of(first_type);
            match unify(s2, &list_type, &tail_type) {
                Ok(s) => Ok((s, list_type)),
                Err(er) => Err(er),
            }
        },
        Pattern::Tuple(ps) => {
            proof {
                assert(decreases_to!(*pattern => pattern->Tuple_0));
            }
            typecheck_patterns(type_env, subst, ps, counter)
        },
        Pattern::FakeTuple(ps) => {
            proof {
                assert(decreases_to!(*pattern => pattern->FakeTuple_0));
            }
            typecheck_patterns(type_env, subst, ps, counter)
        },
        Pattern::EmptyList => match fresh_name(counter) {
            Ok(f) => Ok((Substitution::id_subst(), list_of(Type::TypeVariable(f)))),
            Err(er) => Err(er),
        },
        Pattern::Wildcard => match fresh_name(counter) {
            Ok(f) => Ok((Substitution::id_subst(), Type::TypeVariable(f))),
            Err(er) => Err(er),
        },
    };
    assert(pat_inferred_as(r, type_env@, *counter, infer_pat(env0, subst@, pattern@, c0 as nat)));
    r
}

fn typecheck_patterns(
    type_env: &mut TypingEnvironment,
    subst: Substitution,
    ps: &Vec<Pattern>,
    counter: &mut u64,
) -> (r: Result<(Substitution, Type), TypingError>)
    ensures
        pat_inferred_as(
            r,
            final(type_env)@,
            *final(counter),
            infer_pats(old(type_env)@, subst@, patterns_model(ps@), *old(counter) as nat, Seq::empty()),
        ),
    decreases ps,
{
    let ghost all = patterns_model(ps@);
    let ghost init = infer_pats(type_env@, subst@, all, *counter as nat, Seq::empty());
    let mut types: Vec<Type> = Vec::new();
    let mut current_subst = subst;
    proof {
        lemma_patterns_model(ps@);
        assert(all.skip(0) =~= all);
        assert(types_model(types@) =~= Seq::<Ty>::empty());
    }
    let mut i: usize = 0;
    while i < ps.len()
        invariant
            i <= ps.len(),
            all == patterns_model(ps@),
            all.len() == ps.len(),
            forall|j: int| 0 <= j < ps.len() ==> #[trigger] all[j] == ps@[j]@,
            init == infer_pats(type_env@, current_subst@, all.skip(i as int), *counter as nat, types_model(types@)),
            init == infer_pats(old(type_env)@, subst@, all, *old(counter) as nat, Seq::empty()),
        decreases ps.len() - i,
    {
        proof {
            assert(all.skip(i as int)[0] == all[i as int]);
            assert(all.skip(i as int).skip(1) =~= all.skip(i + 1));
            assert(all.skip(i as int).len() > 0);
            assert(decreases_to!(*ps => ps[i as int]));
        }
        let (phi, pattern_type) = match typecheck_pattern(type_env, current_subst, &ps[i], counter) {
            Ok(p) => p,
            Err(er) => return Err(er),
        };
        current_subst = phi;
        proof {
            lemma_types_model_push(types@, pattern_type);
        }
        types.push(pattern_type);
        i = i + 1;
    }
    Ok((current_subst, Type::Tuple(types)))
}


/// Relies on `char::is_lowercase`: whether the character has the Unicode
/// `Lowercase` property, a function of the character alone.
#[verifier::external_body]
fn is_lowercase(c: char) -> (r: bool)
    ensures
        r == char_is_lowercase(c),
{
    c.is_lowercase()
}

/// The names whose flag is set, in order; `flags[i]` tells whether
/// `names[i]` starts with a lowercase letter.
pub open spec fn flagged(names: Seq<Seq<char>>, flags: Seq<bool>) -> Seq<Seq<char>>
    decreases names.len(),
{
    if names.len() == 0 || flags.len() != names.len() {
        Seq::empty()
    } else if flags.last() {
        flagged(names.drop_last(), flags.drop_last()).push(names.last())
    } else {
        flagged(names.drop_last(), flags.drop_last())
    }
}

/// The flag of each name: whether it starts with a lowercase character.
pub open spec fn lowercase_flags(names: Seq<Seq<char>>) -> Seq<bool> {
    names.map_values(|n: Seq<char>| n.len() > 0 && char_is_lowercase(n[0]))
}

proof fn lemma_flagged_lowercase(names: Seq<Seq<char>>)
    ensures
        flagged(names, lowercase_flags(names)) == lowercase_initial(names),
    decreases names.len(),
{
    if names.len() > 0 {
        assert(lowercase_flags(names).drop_last() =~= lowercase_flags(names.drop_last()));
        lemma_flagged_lowercase(names.drop_last());
    }
}

/// The schematic variables among a signature's type variables, given for
/// each whether it starts with a lowercase letter: the flagged ones, each
/// once, in order of first occurrence.
pub fn schematic_vars(vars: &Vec<String>, flags: &Vec<bool>) -> (r: Vec<String>)
    requires
        vars.len() == flags.len(),
    ensures
        names_model(r@) == dedup(flagged(names_model(vars@), flags@)),
{
    let ghost all = names_model(vars@);
    let mut out: Vec<String> = Vec::new();
    let mut i: usize = 0;
    proof {
        assert(names_model(out@) =~= flagged(all.subrange(0, 0), flags@.subrange(0, 0)));
    }
    while i < vars.len()
        invariant
            i <= vars.len(),
            vars.len() == flags.len(),
            all == names_model(vars@),
            names_model(out@) == flagged(all.subrange(0, i as int), flags@.subrange(0, i as int)),
        decreases vars.len() - i,
    {
        proof {
            assert(all.subrange(0, i + 1).drop_last() =~= all.subrange(0, i as int));
            assert(flags@.subrange(0, i + 1).drop_last() =~= flags@.subrange(0, i as int));
        }
        if flags[i] {
            let ghost before = out@;
            out.push(vars[i].clone());
            proof {
                assert(names_model(out@) =~= names_model(before).push(vars@[i as int]@));
            }
        }
        i = i + 1;
    }
    proof {
        assert(all.subrange(0, vars.len() as int) =~= all);
        assert(flags@.subrange(0, vars.len() as int) =~= flags@);
    }
    names_dedup(&out)
}

/// The schematic variables of a written type signature: its type variables
/// that start with a lowercase letter, each once.
pub fn scvs_in_type_signature(t: &Type) -> (r: Vec<String>)
    ensures
        names_model(r@) == sig_scvs(t@),
{
    let vars = tvars_in(t);
    let ghost all = names_model(vars@);
    proof {
        assert(all =~= vars@.map_values(|n: String| n@));
    }
    let mut flags: Vec<bool> = Vec::new();
    let mut i: usize = 0;
    while i < vars.len()
        invariant
            i <= vars.len(),
            all == names_model(vars@),
            flags@ == lowercase_flags(all).subrange(0, i as int),
        decreases vars.len() - i,
    {
        let name = vars[i].as_str();
        let f = name.unicode_len() > 0 && is_lowercase(name.get_char(0));
        flags.push(f);
        proof {
            assert(flags@ =~= lowercase_flags(all).subrange(0, i + 1));
        }
        i = i + 1;
    }
    proof {
        assert(flags@ =~= lowercase_flags(all));
        lemma_flagged_lowercase(all);
    }
    schematic_vars(&vars, &flags)
}

/// Whether an executable declaration-checking result agrees with the model.
pub open spec fn checked_as(r: Result<Substitution, TypingError>, env: EnvModel, c: u64, m: Checked) -> bool {
    match (r, m) {
        (Ok(s), Ok((menv, ms, mn))) => env == menv && s@ == ms && c as nat == mn,
        (Err(a), Err(b)) => a@ == b,
        _ => false,
    }
}

fn renamed_types(map: Vec<(String, Type)>, t: &Type) -> (r: Type)
    ensures
        r@ == crate::types::subst_ty(map@.map_values(|e: (String, Type)| (e.0@, e.1@)), t@),
{
    let s = Substitution::from(map);
    sub_type(&s, t)
}

fn check_fun_decl(
    type_env: &mut TypingEnvironment,
    subst: Substitution,
    name: &String,
    vars: &Vec<String>,
    expr: &Expr,
    expr_env: TypingEnvironment,
    counter: &mut u64,
) -> (r: Result<Substitution, TypingError>)
    ensures
        checked_as(
            r,
            final(type_env)@,
            *final(counter),
            check_fun(old(type_env)@, subst@, name@, names_model(vars@), expr@, expr_env@, *old(counter) as nat),
        ),
{
    let arg_renamings = match fresh_renaming(vars, counter) {
        Ok(m) => m,
        Err(er) => return Err(er),
    };
    let ghost rn = arg_renamings@.map_values(|e: (String, Type)| (e.0@, e.1@));
    let mut expr_env = expr_env;
    let ghost env0 = expr_env@;
    let mut i: usize = 0;
    proof {
        assert(rn.subrange(0, 0) =~= Seq::<Binding>::empty());
    }
    while i < arg_renamings.len()
        invariant
            i <= arg_renamings.len(),
            rn == arg_renamings@.map_values(|e: (String, Type)| (e.0@, e.1@)),
            expr_env@ == insert_params(env0, rn.subrange(0, i as int)),
        decreases arg_renamings.len() - i,
    {
        proof {
            assert(rn.subrange(0, i + 1).drop_last() =~= rn.subrange(0, i as int));
        }
        expr_env.insert(
            arg_renamings[i].0.clone(),
            TypeScheme { vars: no_names(), body: arg_renamings[i].1.clone() },
        );
        i = i + 1;
    }
    proof {
        assert(rn.subrange(0, arg_renamings.len() as int) =~= rn);
    }
    let (return_subst, return_type) = match typecheck_expression(&expr_env, expr, counter) {
        Ok(p) => p,
        Err(er) => return Err(er),
    };
    let subst = subst_combine(subst, return_subst);
    let mut fun_t = return_type;
    let mut j: usize = 0;
    proof {
        assert(rn.subrange(0, 0) =~= Seq::<Binding>::empty());
    }
    while j < arg_renamings.len()
        invariant
            j <= arg_renamings.len(),
            rn == arg_renamings@.map_values(|e: (String, Type)| (e.0@, e.1@)),
            fun_t@ == fun_type(rn.subrange(0, j as int), return_type@),
        decreases arg_renamings.len() - j,
    {
        proof {
            assert(rn.subrange(0, j + 1).drop_last() =~= rn.subrange(0, j as int));
        }
        fun_t = Type::Function(Box::new(arg_renamings[j].1.clone()), Box::new(fun_t));
        j = j + 1;
    }
    proof {
        assert(rn.subrange(0, arg_renamings.len() as int) =~= rn);
    }
    let fun_t = sub_type(&subst, &fun_t);
    match type_env.get(name) {
        Some(saved) => {
            let saved_type = saved.body.clone();
            unify(subst, &saved_type, &fun_t)
        },
        None => {
            let scvs = scvs_given_te(&fun_t, type_env);
            type_env.insert(name.clone(), TypeScheme { vars: scvs, body: fun_t });
            Ok(subst)
        },
    }
}

/// Checks one declaration, updating the environment and the substitution.
pub fn typecheck_decl(
    type_env: &mut TypingEnvironment,
    subst: Substitution,
    decl: &Decl,
    counter: &mut u64,
) -> (r: Result<Substitution, TypingError>)
    ensures
        checked_as(r, final(type_env)@, *final(counter), check_decl(old(type_env)@, subst@, decl@, *old(counter) as nat)),
{
    match decl {
        Decl::TypeAlias(var_name, type1) => subst.extended(var_name.clone(), type1.clone()),
        Decl::TypeSignature(var_name, type1) => {
            let schematic_vars = scvs_in_type_signature(type1);
            let previous = match type_env.get(var_name) {
                Some(sc) => Some(sc.clone()),
                None => None,
            };
            let fresh_for_new = crate::ast::clone_names(&schematic_vars);
            type_env.insert(var_name.clone(), TypeScheme { vars: schematic_vars, body: type1.clone() });
            match previous {
                None => Ok(subst),
                Some(prev) => {
                    let map1 = match fresh_renaming(&fresh_for_new, counter) {
                        Ok(m) => m,
                        Err(er) => return Err(er),
                    };
                    let map2 = match fresh_renaming(&prev.vars, counter) {
                        Ok(m) => m,
                        Err(er) => return Err(er),
                    };
                    let t1 = renamed_types(map1, type1);
                    let t2 = renamed_types(map2, &prev.body);
                    unify(subst, &t1, &t2)
                },
            }
        },
        Decl::FunDecl(name, vars, expr) => {
            let mut expr_env = type_env.clone();
            if !type_env.contains_key(name) {
                let fresh = match fresh_name(counter) {
                    Ok(n) => n,
                    Err(er) => return Err(er),
                };
                expr_env.insert(name.clone(), TypeScheme { vars: no_names(), body: Type::TypeVariable(fresh) });
            }
            check_fun_decl(type_env, subst, name, vars, expr, expr_env, counter)
        },
        Decl::SExpr(e) => match typecheck_expression(type_env, e, counter) {
            Ok((s, _)) => Ok(s),
            Err(er) => Err(er),
        },
        Decl::EndOfInstruction => Ok(Substitution::id_subst()),
    }
}

pub open spec fn decls_model(p: Seq<Decl>) -> Seq<DeclModel> {
    p.map_values(|d: Decl| d@)
}

/// A typechecking result as a mathematical value.
pub open spec fn typing_outcome(r: Result<Substitution, TypingError>) -> Result<Seq<Binding>, TypeErr> {
    match r {
        Ok(s) => Ok(s@),
        Err(e) => Err(e@),
    }
}

/// Typechecks a program, declaration by declaration, and returns the final
/// substitution. Fresh names are counted from zero on each run, so the
/// outcome is a function of the program alone.
pub fn typecheck_program(p: &Vec<Decl>) -> (r: Result<Substitution, TypingError>)
    ensures
        typing_outcome(r) == program_outcome(decls_model(p@)),
{
    let ghost all = decls_model(p@);
    let mut type_env = TypingEnvironment::new();
    let mut subst = Substitution::id_subst();
    let mut counter: u64 = 0;
    proof {
        assert(all.skip(0) =~= all);
    }
    let mut i: usize = 0;
    while i < p.len()
        invariant
            i <= p.len(),
            all == decls_model(p@),
            check_program(all) == check_decls(type_env@, subst@, all.skip(i as int), counter as nat),
        decreases p.len() - i,
    {
        proof {
            assert(all.skip(i as int)[0] == p@[i as int]@);
            assert(all.skip(i as int).skip(1) =~= all.skip(i + 1));
            assert(all.skip(i as int).len() > 0);
        }
        match typecheck_decl(&mut type_env, subst, &p[i], &mut counter) {
            Ok(s) => {
                subst = s;
            },
            Err(er) => {
                return Err(er);
            },
        }
        i = i + 1;
    }
    Ok(subst)
}

/// Typechecks a program; `Ok` when it is well typed.
pub fn typecheck(p: &Vec<Decl>) -> (r: Result<(), TypingError>)
    ensures
        match (r, check_program(decls_model(p@))) {
            (Ok(_), Ok(_)) => true,
            (Err(a), Err(b)) => a@ == b,
            _ => false,
        },
{
    match typecheck_program(p) {
        Ok(_) => Ok(()),
        Err(e) => Err(e),
    }
}

} // verus!
