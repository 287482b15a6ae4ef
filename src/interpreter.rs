//! Running a program: declarations install functions, top-level
//! expressions are evaluated, forced and printed.
use vstd::prelude::*;

use crate::ast::{Decl, DeclModel};
use crate::display::{render_value, show_val};
use crate::eval::{eval_expr, force_eval};
use crate::semantics::{eval_spec, force_spec};
use crate::typecheck::decls_model;
use crate::value::{Env, RtErr, RunTimeError, Scope, Val, Value};

verus! {

/// The depth budget given to each top-level expression by default.
pub const DEFAULT_FUEL: u64 = 2000;

/// The effect of one declaration on the function table, and the forced value
/// of a top-level expression.
pub open spec fn decl_effect(funs: Scope, d: DeclModel, f: nat) -> Result<(Scope, Option<Val>), RtErr> {
    match d {
        DeclModel::FunDecl(name, args, e) => Ok((funs.push((name, Val::Closure(e, args, Seq::empty()))), Option::None)),
        DeclModel::SExpr(e) => match eval_spec(funs, Seq::empty(), e, f) {
            Ok(v) => match force_spec(funs, v, f) {
                Ok(w) => Ok((funs, Option::Some(w))),
                Err(er) => Err(er),
            },
            Err(er) => Err(er),
        },
        _ => Ok((funs, Option::None)),
    }
}

/// The line printed for a top-level value.
pub open spec fn output_line(v: Val) -> Seq<char> {
    "> "@ + show_val(v)
}

/// The lines printed by running declarations in order, and how the run
/// ended: the first runtime error stops it.
pub open spec fn run_spec(funs: Scope, ds: Seq<DeclModel>, f: nat) -> (Seq<Seq<char>>, Result<(), RtErr>)
    decreases ds.len(),
{
    if ds.len() == 0 {
        (Seq::empty(), Ok(()))
    } else {
        match decl_effect(funs, ds[0], f) {
            Ok((funs2, out)) => {
                let rest = run_spec(funs2, ds.skip(1), f);
                (
                    match out {
                        Option::Some(v) => seq![output_line(v)] + rest.0,
                        Option::None => rest.0,
                    },
                    rest.1,
                )
            },
            Err(er) => (Seq::empty(), Err(er)),
        }
    }
}

/// Executes one declaration: a function is installed in the table; a
/// top-level expression is evaluated and forced, and its value returned.
pub fn eval_decl(funs: &mut Env, decl: &Decl, fuel: u64) -> (r: Result<Option<Value>, RunTimeError>)
    ensures
        match (r, decl_effect(old(funs)@, decl@, fuel as nat)) {
            (Ok(Option::Some(v)), Ok((f2, Option::Some(w)))) => v@ == w && final(funs)@ == f2,
            (Ok(Option::None), Ok((f2, Option::None))) => final(funs)@ == f2,
            (Err(a), Err(b)) => a@ == b,
            _ => false,
        },
{
    match decl {
        Decl::FunDecl(name, args, e) => {
            let closure = Value::Closure(e.clone(), crate::ast::clone_names(args), Env::new());
            funs.add_function(name.clone(), closure);
            Ok(None)
        },
        Decl::SExpr(e) => {
            let local = Env::new();
            let v = match eval_expr(funs, &local, e, fuel) {
                Ok(v) => v,
                Err(er) => return Err(er),
            };
            match force_eval(funs, v, fuel) {
                Ok(w) => Ok(Some(w)),
                Err(er) => Err(er),
            }
        },
        _ => Ok(None),
    }
}

/// Runs a program with the given depth budget for each top-level
/// expression: the printed lines, and how the run ended.
pub fn eval(program: &Vec<Decl>, fuel: u64) -> (r: (Vec<String>, Result<(), RunTimeError>))
    ensures
        r.0@.map_values(|l: String| l@) == run_spec(Seq::empty(), decls_model(program@), fuel as nat).0,
        match (r.1, run_spec(Seq::empty(), decls_model(program@), fuel as nat).1) {
            (Ok(_), Ok(_)) => true,
            (Err(a), Err(b)) => a@ == b,
            _ => false,
        },
{
    let ghost all = decls_model(program@);
    let ghost whole = run_spec(Seq::empty(), all, fuel as nat);
    let mut funs = Env::new();
    let mut lines: Vec<String> = Vec::new();
    let mut i: usize = 0;
    proof {
        assert(all.skip(0) =~= all);
        assert(lines@.map_values(|l: String| l@) + run_spec(funs@, all.skip(0), fuel as nat).0 =~= whole.0);
    }
    while i < program.len()
        invariant
            i <= program.len(),
            all == decls_model(program@),
            whole == run_spec(Seq::empty(), all, fuel as nat),
            whole.0 == lines@.map_values(|l: String| l@) + run_spec(funs@, all.skip(i as int), fuel as nat).0,
            whole.1 == run_spec(funs@, all.skip(i as int), fuel as nat).1,
        decreases program.len() - i,
    {
        proof {
            assert(all.skip(i as int)[0] == program@[i as int]@);
            assert(all.skip(i as int).skip(1) =~= all.skip(i + 1));
            assert(all.skip(i as int).len() > 0);
        }
        let ghost before = lines@;
        match eval_decl(&mut funs, &program[i], fuel) {
            Ok(Some(v)) => {
                let mut line = String::from_str("> ");
                line.append(render_value(&v).as_str());
                lines.push(line);
                proof {
                    let rest = run_spec(funs@, all.skip(i + 1), fuel as nat);
                    assert(lines@.map_values(|l: String| l@) + rest.0 =~= before.map_values(|l: String| l@) + (seq![output_line(v@)] + rest.0));
                }
            },
            Ok(None) => {},
            Err(er) => {
                proof {
                    assert(whole.0 =~= lines@.map_values(|l: String| l@));
                }
                return (lines, Err(er));
            },
        }
        i = i + 1;
    }
    proof {
        assert(whole.0 =~= lines@.map_values(|l: String| l@));
    }
    (lines, Ok(()))
}

/// An interpreter for one program.
pub struct Interpreter {
    program: Vec<Decl>,
    fuel: u64,
}

impl Interpreter {
    /// An interpreter for `program`, with the default depth budget.
    pub fn new(program: Vec<Decl>) -> (r: Interpreter)
        ensures
            r.program() == decls_model(program@),
            r.fuel() == DEFAULT_FUEL,
    {
        Interpreter { program, fuel: DEFAULT_FUEL }
    }

    pub closed spec fn program(&self) -> Seq<DeclModel> {
        decls_model(self.program@)
    }

    pub closed spec fn fuel(&self) -> nat {
        self.fuel as nat
    }

    /// Sets the depth budget given to each top-level expression.
    pub fn with_fuel(self, fuel: u64) -> (r: Interpreter)
        ensures
            r.program() == self.program(),
            r.fuel() == fuel,
    {
        Interpreter { program: self.program, fuel }
    }

    /// Runs the program: the printed lines, and how the run ended.
    pub fn run(&self) -> (r: (Vec<String>, Result<(), RunTimeError>))
        ensures
            r.0@.map_values(|l: String| l@) == run_spec(Seq::empty(), self.program(), self.fuel()).0,
            match (r.1, run_spec(Seq::empty(), self.program(), self.fuel()).1) {
                (Ok(_), Ok(_)) => true,
                (Err(a), Err(b)) => a@ == b,
                _ => false,
            },
    {
        eval(&self.program, self.fuel)
    }
}

} // verus!
