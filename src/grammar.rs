//! The grammar of the surface language, over token models: what each parsing
//! function returns, as a function of the tokens, the position and the
//! nesting budget.
use vstd::prelude::*;

use crate::ast::{Lit, Op, Pat, Term, Ty};
use crate::lexer::{Sym, TokModel, TokenModel};
use crate::lower::ParseErr;
use crate::parse::{NodeModel, named_type_spec, op_level};

verus! {

/// Bound on the nesting of the grammar's rules.
pub const PARSE_DEPTH: u64 = 100000;

/// The line reported for an error at `pos`: that token's, or the last
/// token's past the end.
pub open spec fn line_at(ts: Seq<TokModel>, pos: nat) -> nat {
    if pos < ts.len() {
        ts[pos as int].1
    } else if ts.len() > 0 {
        ts.last().1
    } else {
        0
    }
}

pub open spec fn err_at(ts: Seq<TokModel>, pos: nat, what: Seq<char>) -> ParseErr {
    ParseErr::SyntaxError(line_at(ts, pos), what)
}

pub open spec fn sym_is(ts: Seq<TokModel>, pos: nat, s: Sym) -> bool {
    pos < ts.len() && ts[pos as int].0 == TokenModel::Sym(s)
}

pub open spec fn expect_spec(ts: Seq<TokModel>, pos: nat, s: Sym, what: Seq<char>) -> Result<nat, ParseErr> {
    if sym_is(ts, pos, s) {
        Ok(pos + 1)
    } else {
        Err(err_at(ts, pos, what))
    }
}

pub open spec fn too_deep(ts: Seq<TokModel>, pos: nat) -> ParseErr {
    err_at(ts, pos, "less deeply nested text"@)
}

/// The literal at `pos`, if there is one.
pub open spec fn literal_spec(ts: Seq<TokModel>, pos: nat) -> Option<Lit> {
    if pos < ts.len() {
        match ts[pos as int].0 {
            TokenModel::Int(i) => Option::Some(Lit::Int(i)),
            TokenModel::Bool(b) => Option::Some(Lit::Bool(b)),
            TokenModel::Char(c) => Option::Some(Lit::Char(c)),
            TokenModel::Str(s) => Option::Some(Lit::Str(s)),
            _ => Option::None,
        }
    } else {
        Option::None
    }
}

/// A type: `btype` or `btype -> type`.
pub open spec fn type_spec(ts: Seq<TokModel>, pos: nat, f: nat) -> Result<(Ty, nat), ParseErr>
    decreases f,
{
    if f == 0 {
        Err(too_deep(ts, pos))
    } else {
        match btype_spec(ts, pos, (f - 1) as nat) {
            Ok((t, p)) => if sym_is(ts, p, Sym::Arrow) {
                match type_spec(ts, p + 1, (f - 1) as nat) {
                    Ok((t2, q)) => Ok((Ty::Fun(Box::new(t), Box::new(t2)), q)),
                    Err(e) => Err(e),
                }
            } else {
                Ok((t, p))
            },
            Err(e) => Err(e),
        }
    }
}

/// An atomic type: a name, `[type]`, `()`, `(type)` or a tuple of types.
pub open spec fn btype_spec(ts: Seq<TokModel>, pos: nat, f: nat) -> Result<(Ty, nat), ParseErr>
    decreases f,
{
    if f == 0 || pos >= ts.len() {
        Err(err_at(ts, pos, "a type"@))
    } else {
        let g = (f - 1) as nat;
        match ts[pos as int].0 {
            TokenModel::Con(n) => Ok((named_type_spec(n), pos + 1)),
            TokenModel::Name(n) => Ok((Ty::Var(n), pos + 1)),
            TokenModel::Sym(Sym::LBracket) => match type_spec(ts, pos + 1, g) {
                Ok((t, p)) => match expect_spec(ts, p, Sym::RBracket, "`]`"@) {
                    Ok(q) => Ok((Ty::List(Box::new(t)), q)),
                    Err(e) => Err(e),
                },
                Err(e) => Err(e),
            },
            TokenModel::Sym(Sym::LParen) => if sym_is(ts, pos + 1, Sym::RParen) {
                Ok((Ty::Tuple(Seq::empty()), pos + 2))
            } else {
                match type_list_spec(ts, pos + 1, g) {
                    Ok((tys, p)) => match expect_spec(ts, p, Sym::RParen, "`)`"@) {
                        Ok(q) => if tys.len() == 1 { Ok((tys[0], q)) } else { Ok((Ty::Tuple(tys), q)) },
                        Err(e) => Err(e),
                    },
                    Err(e) => Err(e),
                }
            },
            _ => Err(err_at(ts, pos, "a type"@)),
        }
    }
}

/// Types separated by commas.
pub open spec fn type_list_spec(ts: Seq<TokModel>, pos: nat, f: nat) -> Result<(Seq<Ty>, nat), ParseErr>
    decreases f,
{
    if f == 0 {
        Err(too_deep(ts, pos))
    } else {
        match type_spec(ts, pos, (f - 1) as nat) {
            Ok((t, p)) => if sym_is(ts, p, Sym::Comma) {
                match type_list_spec(ts, p + 1, (f - 1) as nat) {
                    Ok((rest, q)) => Ok((seq![t] + rest, q)),
                    Err(e) => Err(e),
                }
            } else {
                Ok((seq![t], p))
            },
            Err(e) => Err(e),
        }
    }
}

/// A pattern: an atomic pattern, or `apat : pattern`.
pub open spec fn pattern_spec(ts: Seq<TokModel>, pos: nat, f: nat) -> Result<(Pat, nat), ParseErr>
    decreases f,
{
    if f == 0 {
        Err(too_deep(ts, pos))
    } else {
        match apat_spec(ts, pos, (f - 1) as nat) {
            Ok((p1, p)) => if p < ts.len() && ts[p as int].0 == TokenModel::Op(Op::Cons) {
                match pattern_spec(ts, p + 1, (f - 1) as nat) {
                    Ok((p2, q)) => Ok((Pat::Cons(Box::new(p1), Box::new(p2)), q)),
                    Err(e) => Err(e),
                }
            } else {
                Ok((p1, p))
            },
            Err(e) => Err(e),
        }
    }
}

/// An atomic pattern: a literal, a variable, `_`, `[]`, or a parenthesized
/// pattern or tuple of patterns.
pub open spec fn apat_spec(ts: Seq<TokModel>, pos: nat, f: nat) -> Result<(Pat, nat), ParseErr>
    decreases f,
{
    if f == 0 || pos >= ts.len() {
        Err(err_at(ts, pos, "a pattern"@))
    } else {
        match literal_spec(ts, pos) {
            Option::Some(l) => Ok((Pat::Lit(l), pos + 1)),
            Option::None => match ts[pos as int].0 {
                TokenModel::Name(n) => Ok((Pat::Var(n), pos + 1)),
                TokenModel::Sym(Sym::Underscore) => Ok((Pat::Wildcard, pos + 1)),
                TokenModel::Sym(Sym::LBracket) => match expect_spec(ts, pos + 1, Sym::RBracket, "`]`"@) {
                    Ok(q) => Ok((Pat::EmptyList, q)),
                    Err(e) => Err(e),
                },
                TokenModel::Sym(Sym::LParen) => match pattern_list_spec(ts, pos + 1, (f - 1) as nat) {
                    Ok((ps, p)) => match expect_spec(ts, p, Sym::RParen, "`)`"@) {
                        Ok(q) => if ps.len() == 1 { Ok((ps[0], q)) } else { Ok((Pat::Tuple(ps), q)) },
                        Err(e) => Err(e),
                    },
                    Err(e) => Err(e),
                },
                _ => Err(err_at(ts, pos, "a pattern"@)),
            },
        }
    }
}

/// Patterns separated by commas.
pub open spec fn pattern_list_spec(ts: Seq<TokModel>, pos: nat, f: nat) -> Result<(Seq<Pat>, nat), ParseErr>
    decreases f,
{
    if f == 0 {
        Err(too_deep(ts, pos))
    } else {
        match pattern_spec(ts, pos, (f - 1) as nat) {
            Ok((q, p)) => if sym_is(ts, p, Sym::Comma) {
                match pattern_list_spec(ts, p + 1, (f - 1) as nat) {
                    Ok((rest, r)) => Ok((seq![q] + rest, r)),
                    Err(e) => Err(e),
                }
            } else {
                Ok((seq![q], p))
            },
            Err(e) => Err(e),
        }
    }
}

/// An expression: a lambda, `let`, `if`, `case`, or operators over
/// applications.
pub open spec fn expr_spec(ts: Seq<TokModel>, pos: nat, f: nat) -> Result<(Term, nat), ParseErr>
    decreases f,
{
    if f == 0 || pos >= ts.len() {
        Err(err_at(ts, pos, "an expression"@))
    } else {
        let g = (f - 1) as nat;
        if sym_is(ts, pos, Sym::Backslash) {
            lambda_spec(ts, pos + 1, g)
        } else if sym_is(ts, pos, Sym::Let) {
            if pos + 1 >= ts.len() {
                Err(err_at(ts, pos + 1, "a name"@))
            } else {
                match ts[(pos + 1) as int].0 {
                    TokenModel::Name(n) => match expect_spec(ts, pos + 2, Sym::Equals, "`=`"@) {
                        Ok(p) => match expr_spec(ts, p, g) {
                            Ok((e1, p1)) => match expect_spec(ts, p1, Sym::In, "`in`"@) {
                                Ok(p2) => match expr_spec(ts, p2, g) {
                                    Ok((e2, q)) => Ok((Term::Let(n, Box::new(e1), Box::new(e2)), q)),
                                    Err(e) => Err(e),
                                },
                                Err(e) => Err(e),
                            },
                            Err(e) => Err(e),
                        },
                        Err(e) => Err(e),
                    },
                    _ => Err(err_at(ts, pos + 1, "a name"@)),
                }
            }
        } else if sym_is(ts, pos, Sym::If) {
            match expr_spec(ts, pos + 1, g) {
                Ok((c, p)) => match expect_spec(ts, p, Sym::Then, "`then`"@) {
                    Ok(p1) => match expr_spec(ts, p1, g) {
                        Ok((a, p2)) => match expect_spec(ts, p2, Sym::Else, "`else`"@) {
                            Ok(p3) => match expr_spec(ts, p3, g) {
                                Ok((b, q)) => Ok((Term::If(Box::new(c), Box::new(a), Box::new(b)), q)),
                                Err(e) => Err(e),
                            },
                            Err(e) => Err(e),
                        },
                        Err(e) => Err(e),
                    },
                    Err(e) => Err(e),
                },
                Err(e) => Err(e),
            }
        } else if sym_is(ts, pos, Sym::Case) {
            match expr_spec(ts, pos + 1, g) {
                Ok((s, p)) => match expect_spec(ts, p, Sym::Of, "`of`"@) {
                    Ok(p1) => match expect_spec(ts, p1, Sym::LBrace, "`{`"@) {
                        Ok(p2) => match alts_spec(ts, p2, g) {
                            Ok((alts, p3)) => match expect_spec(ts, p3, Sym::RBrace, "`}`"@) {
                                Ok(q) => Ok((Term::Case(Box::new(s), alts), q)),
                                Err(e) => Err(e),
                            },
                            Err(e) => Err(e),
                        },
                        Err(e) => Err(e),
                    },
                    Err(e) => Err(e),
                },
                Err(e) => Err(e),
            }
        } else {
            op_spec(ts, pos, 0, g)
        }
    }
}

/// The parameters and body of a lambda: `x y .. -> body`.
pub open spec fn lambda_spec(ts: Seq<TokModel>, pos: nat, f: nat) -> Result<(Term, nat), ParseErr>
    decreases f,
{
    if f == 0 {
        Err(too_deep(ts, pos))
    } else if pos < ts.len() && ts[pos as int].0 is Name {
        let n = ts[pos as int].0->Name_0;
        if pos + 1 < ts.len() && ts[(pos + 1) as int].0 is Name {
            match lambda_spec(ts, pos + 1, (f - 1) as nat) {
                Ok((b, q)) => Ok((Term::Lambda(n, Box::new(b)), q)),
                Err(e) => Err(e),
            }
        } else {
            match expect_spec(ts, pos + 1, Sym::Arrow, "`->`"@) {
                Ok(p) => match expr_spec(ts, p, (f - 1) as nat) {
                    Ok((b, q)) => Ok((Term::Lambda(n, Box::new(b)), q)),
                    Err(e) => Err(e),
                },
                Err(e) => Err(e),
            }
        }
    } else {
        Err(err_at(ts, pos, "a parameter name"@))
    }
}

/// Case alternatives `pattern -> expr`, separated by semicolons.
pub open spec fn alts_spec(ts: Seq<TokModel>, pos: nat, f: nat) -> Result<(Seq<(Pat, Term)>, nat), ParseErr>
    decreases f,
{
    if f == 0 {
        Err(too_deep(ts, pos))
    } else {
        let g = (f - 1) as nat;
        match pattern_spec(ts, pos, g) {
            Ok((pat, p)) => match expect_spec(ts, p, Sym::Arrow, "`->`"@) {
                Ok(p1) => match expr_spec(ts, p1, g) {
                    Ok((b, p2)) => if sym_is(ts, p2, Sym::Semicolon) {
                        match alts_spec(ts, p2 + 1, g) {
                            Ok((rest, q)) => Ok((seq![(pat, b)] + rest, q)),
                            Err(e) => Err(e),
                        }
                    } else {
                        Ok((seq![(pat, b)], p2))
                    },
                    Err(e) => Err(e),
                },
                Err(e) => Err(e),
            },
            Err(e) => Err(e),
        }
    }
}

pub open spec fn op_at_spec(ts: Seq<TokModel>, pos: nat) -> Option<Op> {
    if pos < ts.len() && ts[pos as int].0 is Op {
        Option::Some(ts[pos as int].0->Op_0)
    } else {
        Option::None
    }
}

/// Whether an operator groups to the right.
pub open spec fn right_assoc(op: Op) -> bool {
    op == Op::Or || op == Op::And || op == Op::Cons || op == Op::Append
}

/// Operators of binding level `level` and above.
pub open spec fn op_spec(ts: Seq<TokModel>, pos: nat, level: nat, f: nat) -> Result<(Term, nat), ParseErr>
    decreases f,
{
    if f == 0 {
        Err(too_deep(ts, pos))
    } else if level >= 6 {
        app_spec(ts, pos, (f - 1) as nat)
    } else {
        match op_spec(ts, pos, level + 1, (f - 1) as nat) {
            Ok((lhs, p)) => op_rest_spec(ts, level, lhs, p, (f - 1) as nat),
            Err(e) => Err(e),
        }
    }
}

/// The operators of level `level` that follow `lhs`.
pub open spec fn op_rest_spec(ts: Seq<TokModel>, level: nat, lhs: Term, pos: nat, f: nat) -> Result<(Term, nat), ParseErr>
    decreases f,
{
    if f == 0 {
        Err(too_deep(ts, pos))
    } else {
        match op_at_spec(ts, pos) {
            Option::Some(op) => if op_level(op) == level {
                let next = if right_assoc(op) { level } else { level + 1 };
                match op_spec(ts, pos + 1, next, (f - 1) as nat) {
                    Ok((rhs, p)) => if right_assoc(op) {
                        Ok((Term::BinOp(Box::new(lhs), op, Box::new(rhs)), p))
                    } else {
                        op_rest_spec(ts, level, Term::BinOp(Box::new(lhs), op, Box::new(rhs)), p, (f - 1) as nat)
                    },
                    Err(e) => Err(e),
                }
            } else {
                Ok((lhs, pos))
            },
            Option::None => Ok((lhs, pos)),
        }
    }
}

/// Whether the token at `pos` can start an atomic expression.
pub open spec fn starts_aexpr_spec(ts: Seq<TokModel>, pos: nat) -> bool {
    pos < ts.len() && match ts[pos as int].0 {
        TokenModel::Int(_) | TokenModel::Bool(_) | TokenModel::Char(_) | TokenModel::Str(_) | TokenModel::Name(_) => true,
        TokenModel::Sym(Sym::LParen) | TokenModel::Sym(Sym::LBracket) => true,
        _ => false,
    }
}

/// Application: atomic expressions side by side, grouping to the left.
pub open spec fn app_spec(ts: Seq<TokModel>, pos: nat, f: nat) -> Result<(Term, nat), ParseErr>
    decreases f,
{
    if f == 0 {
        Err(too_deep(ts, pos))
    } else {
        match aexpr_spec(ts, pos, (f - 1) as nat) {
            Ok((h, p)) => app_rest_spec(ts, h, p, (f - 1) as nat),
            Err(e) => Err(e),
        }
    }
}

/// The arguments that follow `h`.
pub open spec fn app_rest_spec(ts: Seq<TokModel>, h: Term, pos: nat, f: nat) -> Result<(Term, nat), ParseErr>
    decreases f,
{
    if f == 0 {
        Err(too_deep(ts, pos))
    } else if starts_aexpr_spec(ts, pos) {
        match aexpr_spec(ts, pos, (f - 1) as nat) {
            Ok((a, p)) => app_rest_spec(ts, Term::App(Box::new(h), Box::new(a)), p, (f - 1) as nat),
            Err(e) => Err(e),
        }
    } else {
        Ok((h, pos))
    }
}

/// An atomic expression: a literal, a variable, a parenthesized expression
/// or tuple, a list, or a range `[start, ..step..]` / `[start, ..step.., stop]`.
pub open spec fn aexpr_spec(ts: Seq<TokModel>, pos: nat, f: nat) -> Result<(Term, nat), ParseErr>
    decreases f,
{
    if f == 0 || pos >= ts.len() {
        Err(err_at(ts, pos, "an expression"@))
    } else {
        let g = (f - 1) as nat;
        match literal_spec(ts, pos) {
            Option::Some(l) => Ok((Term::Lit(l), pos + 1)),
            Option::None => match ts[pos as int].0 {
                TokenModel::Name(n) => Ok((Term::Var(n), pos + 1)),
                TokenModel::Sym(Sym::LParen) => if sym_is(ts, pos + 1, Sym::RParen) {
                    Ok((Term::Tuple(Seq::empty()), pos + 2))
                } else {
                    match expr_list_spec(ts, pos + 1, g) {
                        Ok((es, p)) => match expect_spec(ts, p, Sym::RParen, "`)`"@) {
                            Ok(q) => if es.len() == 1 { Ok((es[0], q)) } else { Ok((Term::Tuple(es), q)) },
                            Err(e) => Err(e),
                        },
                        Err(e) => Err(e),
                    }
                },
                TokenModel::Sym(Sym::LBracket) => if sym_is(ts, pos + 1, Sym::RBracket) {
                    Ok((Term::List(Seq::empty()), pos + 2))
                } else {
                    match expr_spec(ts, pos + 1, g) {
                        Ok((first, p)) => if sym_is(ts, p, Sym::Comma) && sym_is(ts, p + 1, Sym::DotDot) {
                            range_rest_spec(ts, first, p + 2, g)
                        } else if sym_is(ts, p, Sym::Comma) {
                            match expr_list_spec(ts, p + 1, g) {
                                Ok((rest, q)) => match expect_spec(ts, q, Sym::RBracket, "`]`"@) {
                                    Ok(r) => Ok((Term::List(seq![first] + rest), r)),
                                    Err(e) => Err(e),
                                },
                                Err(e) => Err(e),
                            }
                        } else {
                            match expect_spec(ts, p, Sym::RBracket, "`]`"@) {
                                Ok(r) => Ok((Term::List(seq![first]), r)),
                                Err(e) => Err(e),
                            }
                        },
                        Err(e) => Err(e),
                    }
                },
                _ => Err(err_at(ts, pos, "an expression"@)),
            },
        }
    }
}

/// The rest of a range after `[start, ..`: `step..]` or `step.., stop]`.
pub open spec fn range_rest_spec(ts: Seq<TokModel>, first: Term, pos: nat, f: nat) -> Result<(Term, nat), ParseErr>
    decreases f,
{
    if f == 0 {
        Err(too_deep(ts, pos))
    } else {
        let g = (f - 1) as nat;
        match expr_spec(ts, pos, g) {
            Ok((step, p)) => match expect_spec(ts, p, Sym::DotDot, "`..`"@) {
                Ok(q) => if sym_is(ts, q, Sym::Comma) {
                    match expr_spec(ts, q + 1, g) {
                        Ok((stop, q2)) => match expect_spec(ts, q2, Sym::RBracket, "`]`"@) {
                            Ok(r) => Ok((Term::Range(Box::new(first), Box::new(step), Option::Some(Box::new(stop))), r)),
                            Err(e) => Err(e),
                        },
                        Err(e) => Err(e),
                    }
                } else {
                    match expect_spec(ts, q, Sym::RBracket, "`]`"@) {
                        Ok(r) => Ok((Term::Range(Box::new(first), Box::new(step), Option::None), r)),
                        Err(e) => Err(e),
                    }
                },
                Err(e) => Err(e),
            },
            Err(e) => Err(e),
        }
    }
}

/// Expressions separated by commas.
pub open spec fn expr_list_spec(ts: Seq<TokModel>, pos: nat, f: nat) -> Result<(Seq<Term>, nat), ParseErr>
    decreases f,
{
    if f == 0 {
        Err(too_deep(ts, pos))
    } else {
        match expr_spec(ts, pos, (f - 1) as nat) {
            Ok((e, p)) => if sym_is(ts, p, Sym::Comma) {
                match expr_list_spec(ts, p + 1, (f - 1) as nat) {
                    Ok((rest, q)) => Ok((seq![e] + rest, q)),
                    Err(er) => Err(er),
                }
            } else {
                Ok((seq![e], p))
            },
            Err(er) => Err(er),
        }
    }
}

/// The argument patterns of an equation up to its `=`: the patterns, the
/// position reached, and whether an `=` stands there.
pub open spec fn scan_apats(ts: Seq<TokModel>, pos: nat) -> (Seq<Pat>, nat, bool)
    decreases ts.len() - pos,
{
    if pos >= ts.len() {
        (Seq::empty(), pos, false)
    } else if sym_is(ts, pos, Sym::Equals) {
        (Seq::empty(), pos, true)
    } else {
        match apat_spec(ts, pos, PARSE_DEPTH as nat) {
            Ok((q, p)) => if pos < p && p <= ts.len() {
                let r = scan_apats(ts, p);
                (seq![q] + r.0, r.1, r.2)
            } else {
                (Seq::empty(), pos, false)
            },
            Err(_) => (Seq::empty(), pos, false),
        }
    }
}

/// A whole declaration as a top-level expression.
pub open spec fn expr_node_spec(ts: Seq<TokModel>) -> Result<NodeModel, ParseErr> {
    match expr_spec(ts, 0, PARSE_DEPTH as nat) {
        Ok((e, q)) => if q == ts.len() {
            Ok(NodeModel::SExpr(e))
        } else {
            Err(err_at(ts, q, "the end of the expression"@))
        },
        Err(er) => Err(er),
    }
}

/// One top-level item from the tokens of one declaration: a type alias, a
/// type signature, an equation, or an expression.
pub open spec fn node_spec(ts: Seq<TokModel>) -> Result<NodeModel, ParseErr> {
    let d = PARSE_DEPTH as nat;
    if sym_is(ts, 0, Sym::Type) {
        if 1 < ts.len() && ts[1].0 is Con {
            match expect_spec(ts, 2, Sym::Equals, "`=`"@) {
                Ok(p) => match type_spec(ts, p, d) {
                    Ok((t, q)) => if q == ts.len() {
                        Ok(NodeModel::TypeAlias(ts[1].0->Con_0, t))
                    } else {
                        Err(err_at(ts, q, "the end of the declaration"@))
                    },
                    Err(er) => Err(er),
                },
                Err(er) => Err(er),
            }
        } else {
            Err(err_at(ts, 1, "a type name"@))
        }
    } else if 0 < ts.len() && ts[0].0 is Name {
        let n = ts[0].0->Name_0;
        if sym_is(ts, 1, Sym::DoubleColon) {
            match type_spec(ts, 2, d) {
                Ok((t, q)) => if q == ts.len() {
                    Ok(NodeModel::TypeSignature(n, t))
                } else {
                    Err(err_at(ts, q, "the end of the declaration"@))
                },
                Err(er) => Err(er),
            }
        } else {
            let (ps, p, found) = scan_apats(ts, 1);
            if found && p < ts.len() {
                match expr_spec(ts, p + 1, d) {
                    Ok((e, q)) => if q == ts.len() {
                        Ok(NodeModel::Equation(n, ps, e))
                    } else {
                        Err(err_at(ts, q, "the end of the declaration"@))
                    },
                    Err(er) => Err(er),
                }
            } else {
                expr_node_spec(ts)
            }
        }
    } else {
        expr_node_spec(ts)
    }
}

/// The end of the declaration that continues at `j`: the next token that
/// starts a declaration, or the end.
pub open spec fn group_end(ts: Seq<TokModel>, j: nat) -> nat
    decreases ts.len() - j,
{
    if j < ts.len() && !ts[j as int].2 {
        group_end(ts, j + 1)
    } else {
        j
    }
}

/// The top-level items from position `start` on, one per declaration.
pub open spec fn nodes_from(ts: Seq<TokModel>, start: nat) -> Result<Seq<NodeModel>, ParseErr>
    decreases ts.len() - start,
{
    if start >= ts.len() {
        Ok(Seq::empty())
    } else {
        let end = group_end(ts, start + 1);
        if start < end && end <= ts.len() {
            match node_spec(ts.subrange(start as int, end as int)) {
                Ok(n) => match nodes_from(ts, end) {
                    Ok(rest) => Ok(seq![n] + rest),
                    Err(er) => Err(er),
                },
                Err(er) => Err(er),
            }
        } else {
            Err(ParseErr::GrammarError)
        }
    }
}

/// The top-level items of a token sequence.
pub open spec fn nodes_spec(ts: Seq<TokModel>) -> Result<Seq<NodeModel>, ParseErr> {
    nodes_from(ts, 0)
}

} // verus!
