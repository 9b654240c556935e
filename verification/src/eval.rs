//! The evaluator.
//!
//! An atom evaluates to itself, except a symbol bound in the environment,
//! which evaluates to a copy of its value; an unbound symbol denotes itself,
//! deferring resolution to procedure dispatch. A list is a special form
//! (`if`, `define`, `lambda`) or a procedure call: the head and then every
//! operand are evaluated left to right, and the result is applied — a
//! builtin by name, or a lambda list, which runs its body against a copy of
//! the caller's environment, bound parameter by parameter. Nesting is
//! bounded by an explicit fuel so that every call returns; the public entry
//! point grants a generous default.
//!
//! The whole behaviour, value and environment alike, is pinned by the
//! spec-level interpreter `eval_spec`.

use vstd::prelude::*;
use vstd::string::StringExecFns;
use crate::ast::{exps_view, lemma_list_view, Atom, AtomV, Exp, ExpV};
use crate::bits::{abs_bits, divisor_too_small, eq_bits, le_bits, lt_bits};
use crate::bits::{f64_abs, f64_divisor_too_small, f64_eq, f64_le, f64_lt};
use crate::env::Env;
use crate::err::{EvalErrV, EvalError};
use crate::num::{add_bits, cos_bits, cosh_bits, div_bits, exp_bits, ln_bits, mul_bits, pow_bits,
    sin_bits, sinh_bits, sub_bits, tan_bits, tanh_bits};
use crate::num::{f64_add, f64_cos, f64_cosh, f64_div, f64_exp, f64_ln, f64_mul, f64_pow, f64_sin,
    f64_sinh, f64_sub, f64_tan, f64_tanh};

verus! {

/// The view of an environment.
pub type EnvV = Map<Seq<char>, ExpV>;

/// The fuel the public entry point grants: deeper nesting than this fails
/// with a depth error instead of exhausting the call stack.
pub const DEFAULT_FUEL: u64 = 1000000;

/// The numeric operand at index `i`: reaching past the operands is an arity
/// failure, a non-number operand a type failure.
pub open spec fn arg_num(args: Seq<ExpV>, i: int) -> Result<u64, EvalErrV> {
    if !(0 <= i < args.len()) {
        Err(EvalErrV::Arity)
    } else {
        match args[i] {
            ExpV::Atom(AtomV::Number(b)) => Ok(b),
            _ => Err(EvalErrV::Type),
        }
    }
}

/// The first two numeric operands.
pub open spec fn two_nums(args: Seq<ExpV>) -> Result<(u64, u64), EvalErrV> {
    match arg_num(args, 0) {
        Err(e) => Err(e),
        Ok(a) => match arg_num(args, 1) {
            Err(e) => Err(e),
            Ok(b) => Ok((a, b)),
        },
    }
}

/// A builtin over two numbers, yielding a number.
pub open spec fn bin_num(args: Seq<ExpV>, f: spec_fn(u64, u64) -> u64) -> Result<ExpV, EvalErrV> {
    match two_nums(args) {
        Err(e) => Err(e),
        Ok((a, b)) => Ok(ExpV::Atom(AtomV::Number(f(a, b)))),
    }
}

/// A builtin over two numbers, yielding a boolean.
pub open spec fn bin_cmp(args: Seq<ExpV>, f: spec_fn(u64, u64) -> bool) -> Result<
    ExpV,
    EvalErrV,
> {
    match two_nums(args) {
        Err(e) => Err(e),
        Ok((a, b)) => Ok(ExpV::Atom(AtomV::Bool(f(a, b)))),
    }
}

/// A builtin over one number, yielding a number.
pub open spec fn un_num(args: Seq<ExpV>, f: spec_fn(u64) -> u64) -> Result<ExpV, EvalErrV> {
    match arg_num(args, 0) {
        Err(e) => Err(e),
        Ok(a) => Ok(ExpV::Atom(AtomV::Number(f(a)))),
    }
}

/// The fixed builtin table, applied to already-evaluated operands. Division
/// by an operand whose absolute value lies below 1e-12 is a division by
/// zero; a name the table lacks is a name failure.
pub open spec fn builtin_spec(name: Seq<char>, args: Seq<ExpV>) -> Result<ExpV, EvalErrV> {
    if name == "^"@ {
        bin_num(args, |a: u64, b: u64| pow_bits(a, b))
    } else if name == "*"@ {
        bin_num(args, |a: u64, b: u64| mul_bits(a, b))
    } else if name == "/"@ {
        match two_nums(args) {
            Err(e) => Err(e),
            Ok((a, b)) => {
                if divisor_too_small(b) {
                    Err(EvalErrV::DivisionByZero)
                } else {
                    Ok(ExpV::Atom(AtomV::Number(div_bits(a, b))))
                }
            },
        }
    } else if name == "+"@ {
        bin_num(args, |a: u64, b: u64| add_bits(a, b))
    } else if name == "-"@ {
        bin_num(args, |a: u64, b: u64| sub_bits(a, b))
    } else if name == ">"@ {
        bin_cmp(args, |a: u64, b: u64| lt_bits(b, a))
    } else if name == "<"@ {
        bin_cmp(args, |a: u64, b: u64| lt_bits(a, b))
    } else if name == ">="@ {
        bin_cmp(args, |a: u64, b: u64| le_bits(b, a))
    } else if name == "<="@ {
        bin_cmp(args, |a: u64, b: u64| le_bits(a, b))
    } else if name == "="@ {
        bin_cmp(args, |a: u64, b: u64| eq_bits(a, b))
    } else if name == "abs"@ {
        un_num(args, |a: u64| abs_bits(a))
    } else if name == "sin"@ {
        un_num(args, |a: u64| sin_bits(a))
    } else if name == "cos"@ {
        un_num(args, |a: u64| cos_bits(a))
    } else if name == "tan"@ {
        un_num(args, |a: u64| tan_bits(a))
    } else if name == "sinh"@ {
        un_num(args, |a: u64| sinh_bits(a))
    } else if name == "cosh"@ {
        un_num(args, |a: u64| cosh_bits(a))
    } else if name == "tanh"@ {
        un_num(args, |a: u64| tanh_bits(a))
    } else if name == "exp"@ {
        un_num(args, |a: u64| exp_bits(a))
    } else if name == "ln"@ {
        un_num(args, |a: u64| ln_bits(a))
    } else if name == "begin"@ {
        if args.len() == 0 {
            Err(EvalErrV::Arity)
        } else {
            Ok(args.last())
        }
    } else if name == "car"@ {
        if args.len() == 0 {
            Err(EvalErrV::Arity)
        } else {
            Ok(args[0])
        }
    } else {
        Err(EvalErrV::Name(name))
    }
}

/// How many parameters a lambda list declares: everything between the head
/// and the body.
pub open spec fn param_count(pl: Seq<ExpV>) -> int {
    if pl.len() >= 2 {
        pl.len() - 2
    } else {
        0
    }
}

/// How many parameter/argument pairs a call binds: the shorter of the two
/// rows; whatever the longer row has beyond that is silently ignored.
pub open spec fn zip_count(pl: Seq<ExpV>, args: Seq<ExpV>) -> int {
    if param_count(pl) < args.len() {
        param_count(pl)
    } else {
        args.len() as int
    }
}

/// Binds parameter `i` and onward in the called procedure's environment.
/// Each binding works like `define`: the argument value is evaluated once
/// more in the growing environment, and bound under the parameter's name;
/// a parameter that is no symbol is a type failure.
pub open spec fn bind_spec(fuel: nat, pl: Seq<ExpV>, args: Seq<ExpV>, i: int, env: EnvV) -> Result<
    EnvV,
    EvalErrV,
>
    decreases fuel, 0int, zip_count(pl, args) - i,
{
    if !(0 <= i < zip_count(pl, args)) {
        Ok(env)
    } else if fuel == 0 {
        Err(EvalErrV::Depth)
    } else {
        match pl[1 + i] {
            ExpV::Atom(AtomV::Symbol(name)) => {
                let r = eval_spec((fuel - 1) as nat, args[i], env);
                match r.0 {
                    Err(e) => Err(e),
                    Ok(v) => bind_spec(fuel, pl, args, i + 1, r.1.insert(name, v)),
                }
            },
            _ => Err(EvalErrV::Type),
        }
    }
}

/// Applies an evaluated procedure to evaluated operands. A symbol names a
/// builtin; a list is a lambda: its body, the last element, is evaluated
/// against a copy of the caller's environment extended with the parameter
/// bindings, and the copy is dropped afterwards. An empty lambda list has
/// no body; any other procedure value is a syntax failure. The caller's
/// environment is never changed.
pub open spec fn apply_spec(fuel: nat, p: ExpV, args: Seq<ExpV>, env: EnvV) -> Result<
    ExpV,
    EvalErrV,
>
    decreases fuel, 1int, 0int,
{
    match p {
        ExpV::Atom(AtomV::Symbol(name)) => builtin_spec(name, args),
        ExpV::List(pl) => {
            if pl.len() == 0 {
                Err(EvalErrV::Syntax)
            } else if fuel == 0 {
                Err(EvalErrV::Depth)
            } else {
                match bind_spec(fuel, pl, args, 0, env) {
                    Err(e) => Err(e),
                    Ok(env2) => eval_spec((fuel - 1) as nat, pl.last(), env2).0,
                }
            }
        },
        _ => Err(EvalErrV::Syntax),
    }
}

/// Evaluates the operands `l[i..]` left to right, threading the
/// environment; the first failure aborts the row.
pub open spec fn eval_args(fuel: nat, l: Seq<ExpV>, i: int, env: EnvV) -> (Result<
    Seq<ExpV>,
    EvalErrV,
>, EnvV)
    decreases fuel, 2int, l.len() - i,
{
    if !(1 <= i < l.len()) {
        (Ok(Seq::empty()), env)
    } else if fuel == 0 {
        (Err(EvalErrV::Depth), env)
    } else {
        let r = eval_spec((fuel - 1) as nat, l[i], env);
        match r.0 {
            Err(e) => (Err(e), r.1),
            Ok(v) => {
                let rest = eval_args(fuel, l, i + 1, r.1);
                match rest.0 {
                    Err(e) => (Err(e), rest.1),
                    Ok(vs) => (Ok(seq![v] + vs), rest.1),
                }
            },
        }
    }
}

/// One step of the interpreter: the value (or failure) of `e` under `env`,
/// and the environment afterwards. `fuel` bounds the nesting of steps.
pub open spec fn eval_spec(fuel: nat, e: ExpV, env: EnvV) -> (Result<ExpV, EvalErrV>, EnvV)
    decreases fuel, 3int, 0int,
{
    if fuel == 0 {
        (Err(EvalErrV::Depth), env)
    } else {
        let f1 = (fuel - 1) as nat;
        match e {
            ExpV::Atom(AtomV::Symbol(s)) => {
                if env.contains_key(s) {
                    (Ok(env[s]), env)
                } else {
                    (Ok(e), env)
                }
            },
            ExpV::Atom(_) => (Ok(e), env),
            ExpV::List(l) => {
                if l.len() == 0 {
                    (Err(EvalErrV::Syntax), env)
                } else {
                    match l[0] {
                        ExpV::Atom(AtomV::Symbol(h)) => {
                            if h == "if"@ {
                                if l.len() != 4 {
                                    (Err(EvalErrV::Syntax), env)
                                } else {
                                    let t = eval_spec(f1, l[1], env);
                                    match t.0 {
                                        Err(e2) => (Err(e2), t.1),
                                        Ok(tv) => {
                                            if tv == ExpV::Atom(AtomV::Bool(true)) {
                                                eval_spec(f1, l[2], t.1)
                                            } else {
                                                eval_spec(f1, l[3], t.1)
                                            }
                                        },
                                    }
                                }
                            } else if h == "define"@ {
                                if l.len() != 3 {
                                    (Err(EvalErrV::Syntax), env)
                                } else {
                                    match l[1] {
                                        ExpV::Atom(AtomV::Symbol(name)) => {
                                            let r = eval_spec(f1, l[2], env);
                                            match r.0 {
                                                Err(e2) => (Err(e2), r.1),
                                                Ok(v) => (
                                                    Ok(ExpV::Atom(AtomV::Bool(true))),
                                                    r.1.insert(name, v),
                                                ),
                                            }
                                        },
                                        _ => (Err(EvalErrV::Type), env),
                                    }
                                }
                            } else if h == "lambda"@ {
                                (Ok(e), env)
                            } else {
                                let hr = eval_spec(f1, l[0], env);
                                match hr.0 {
                                    Err(e2) => (Err(e2), hr.1),
                                    Ok(p) => {
                                        let a = eval_args(fuel, l, 1, hr.1);
                                        match a.0 {
                                            Err(e2) => (Err(e2), a.1),
                                            Ok(vs) => (apply_spec(f1, p, vs, a.1), a.1),
                                        }
                                    },
                                }
                            }
                        },
                        _ => (Err(EvalErrV::Syntax), env),
                    }
                }
            },
        }
    }
}

/// The view of an evaluation result.
pub open spec fn res_view(r: Result<Exp, EvalError>) -> Result<ExpV, EvalErrV> {
    match r {
        Ok(e) => Ok(e@),
        Err(x) => Err(x@),
    }
}

/// Prefixes an operand row result with already-evaluated operands.
pub open spec fn args_join(pre: Seq<ExpV>, r: (Result<Seq<ExpV>, EvalErrV>, EnvV)) -> (Result<
    Seq<ExpV>,
    EvalErrV,
>, EnvV) {
    match r.0 {
        Err(e) => (Err(e), r.1),
        Ok(vs) => (Ok(pre + vs), r.1),
    }
}

/// Tests a keyword.
fn is_kw(s: &String, kw: &str) -> (r: bool)
    ensures
        r == (s@ == kw@),
{
    *s == String::from_str(kw)
}

/// Tests whether a value is exactly the boolean true — the only value the
/// conditional takes its consequent branch on.
fn is_true(e: &Exp) -> (r: bool)
    ensures
        r == (e@ == ExpV::Atom(AtomV::Bool(true))),
{
    match e {
        Exp::Atom(Atom::Bool(b)) => *b,
        _ => false,
    }
}

/// The numeric operand at index `i` (see `arg_num`).
fn arg_num_x(args: &Vec<Exp>, i: usize) -> (r: Result<u64, EvalError>)
    ensures
        match r {
            Ok(b) => arg_num(exps_view(*args), i as int) == Ok::<u64, EvalErrV>(b),
            Err(e) => arg_num(exps_view(*args), i as int) == Err::<u64, EvalErrV>(e@),
        },
{
    if i >= args.len() {
        return Err(EvalError::Arity);
    }
    match &args[i] {
        Exp::Atom(Atom::Number(b)) => Ok(*b),
        _ => Err(EvalError::Type),
    }
}

/// The first two numeric operands (see `two_nums`).
fn two_nums_x(args: &Vec<Exp>) -> (r: Result<(u64, u64), EvalError>)
    ensures
        match r {
            Ok(p) => two_nums(exps_view(*args)) == Ok::<(u64, u64), EvalErrV>(p),
            Err(e) => two_nums(exps_view(*args)) == Err::<(u64, u64), EvalErrV>(e@),
        },
{
    let a = match arg_num_x(args, 0) {
        Ok(a) => a,
        Err(e) => return Err(e),
    };
    let b = match arg_num_x(args, 1) {
        Ok(b) => b,
        Err(e) => return Err(e),
    };
    Ok((a, b))
}

/// Applies a builtin by name (see `builtin_spec`).
fn apply_builtin(name: &String, args: &Vec<Exp>) -> (r: Result<Exp, EvalError>)
    ensures
        res_view(r) == builtin_spec(name@, exps_view(*args)),
{
    if is_kw(name, "^") {
        match two_nums_x(args) {
            Err(e) => Err(e),
            Ok((a, b)) => Ok(Exp::Atom(Atom::Number(f64_pow(a, b)))),
        }
    } else if is_kw(name, "*") {
        match two_nums_x(args) {
            Err(e) => Err(e),
            Ok((a, b)) => Ok(Exp::Atom(Atom::Number(f64_mul(a, b)))),
        }
    } else if is_kw(name, "/") {
        match two_nums_x(args) {
            Err(e) => Err(e),
            Ok((a, b)) => {
                if f64_divisor_too_small(b) {
                    Err(EvalError::DivisionByZero)
                } else {
                    Ok(Exp::Atom(Atom::Number(f64_div(a, b))))
                }
            },
        }
    } else if is_kw(name, "+") {
        match two_nums_x(args) {
            Err(e) => Err(e),
            Ok((a, b)) => Ok(Exp::Atom(Atom::Number(f64_add(a, b)))),
        }
    } else if is_kw(name, "-") {
        match two_nums_x(args) {
            Err(e) => Err(e),
            Ok((a, b)) => Ok(Exp::Atom(Atom::Number(f64_sub(a, b)))),
        }
    } else if is_kw(name, ">") {
        match two_nums_x(args) {
            Err(e) => Err(e),
            Ok((a, b)) => Ok(Exp::Atom(Atom::Bool(f64_lt(b, a)))),
        }
    } else if is_kw(name, "<") {
        match two_nums_x(args) {
            Err(e) => Err(e),
            Ok((a, b)) => Ok(Exp::Atom(Atom::Bool(f64_lt(a, b)))),
        }
    } else if is_kw(name, ">=") {
        match two_nums_x(args) {
            Err(e) => Err(e),
            Ok((a, b)) => Ok(Exp::Atom(Atom::Bool(f64_le(b, a)))),
        }
    } else if is_kw(name, "<=") {
        match two_nums_x(args) {
            Err(e) => Err(e),
            Ok((a, b)) => Ok(Exp::Atom(Atom::Bool(f64_le(a, b)))),
        }
    } else if is_kw(name, "=") {
        match two_nums_x(args) {
            Err(e) => Err(e),
            Ok((a, b)) => Ok(Exp::Atom(Atom::Bool(f64_eq(a, b)))),
        }
    } else if is_kw(name, "abs") {
        match arg_num_x(args, 0) {
            Err(e) => Err(e),
            Ok(a) => Ok(Exp::Atom(Atom::Number(f64_abs(a)))),
        }
    } else if is_kw(name, "sin") {
        match arg_num_x(args, 0) {
            Err(e) => Err(e),
            Ok(a) => Ok(Exp::Atom(Atom::Number(f64_sin(a)))),
        }
    } else if is_kw(name, "cos") {
        match arg_num_x(args, 0) {
            Err(e) => Err(e),
            Ok(a) => Ok(Exp::Atom(Atom::Number(f64_cos(a)))),
        }
    } else if is_kw(name, "tan") {
        match arg_num_x(args, 0) {
            Err(e) => Err(e),
            Ok(a) => Ok(Exp::Atom(Atom::Number(f64_tan(a)))),
        }
    } else if is_kw(name, "sinh") {
        match arg_num_x(args, 0) {
            Err(e) => Err(e),
            Ok(a) => Ok(Exp::Atom(Atom::Number(f64_sinh(a)))),
        }
    } else if is_kw(name, "cosh") {
        match arg_num_x(args, 0) {
            Err(e) => Err(e),
            Ok(a) => Ok(Exp::Atom(Atom::Number(f64_cosh(a)))),
        }
    } else if is_kw(name, "tanh") {
        match arg_num_x(args, 0) {
            Err(e) => Err(e),
            Ok(a) => Ok(Exp::Atom(Atom::Number(f64_tanh(a)))),
        }
    } else if is_kw(name, "exp") {
        match arg_num_x(args, 0) {
            Err(e) => Err(e),
            Ok(a) => Ok(Exp::Atom(Atom::Number(f64_exp(a)))),
        }
    } else if is_kw(name, "ln") {
        match arg_num_x(args, 0) {
            Err(e) => Err(e),
            Ok(a) => Ok(Exp::Atom(Atom::Number(f64_ln(a)))),
        }
    } else if is_kw(name, "begin") {
        if args.len() == 0 {
            Err(EvalError::Arity)
        } else {
            Ok(args[args.len() - 1].deep_copy())
        }
    } else if is_kw(name, "car") {
        if args.len() == 0 {
            Err(EvalError::Arity)
        } else {
            Ok(args[0].deep_copy())
        }
    } else {
        Err(EvalError::Name(name.clone()))
    }
}

/// Applies an evaluated procedure to evaluated operands (see `apply_spec`).
/// The caller's environment is read, never changed: a lambda works on a
/// copy of it.
#[verifier::loop_isolation(false)]
fn apply_proc(p: &Exp, args: &Vec<Exp>, env: &Env, fuel: u64) -> (r: Result<Exp, EvalError>)
    ensures
        res_view(r) == apply_spec(fuel as nat, p@, exps_view(*args), env@),
    decreases fuel, 0int,
{
    let ghost argsv = exps_view(*args);
    match p {
        Exp::Atom(Atom::Symbol(name)) => apply_builtin(name, args),
        Exp::List(pl) => {
            proof {
                lemma_list_view(*pl);
            }
            let ghost plv = exps_view(*pl);
            if pl.len() == 0 {
                return Err(EvalError::Syntax);
            }
            if fuel == 0 {
                return Err(EvalError::Depth);
            }
            let mut local = env.duplicate();
            let pc = if pl.len() >= 2 {
                pl.len() - 2
            } else {
                0
            };
            let m = if pc < args.len() {
                pc
            } else {
                args.len()
            };
            let mut i: usize = 0;
            loop
                invariant
                    i <= m,
                    m == zip_count(plv, argsv),
                    fuel >= 1,
                    plv == exps_view(*pl),
                    argsv == exps_view(*args),
                    pl@.len() >= 1,
                    bind_spec(fuel as nat, plv, argsv, 0, env@) == bind_spec(
                        fuel as nat,
                        plv,
                        argsv,
                        i as int,
                        local@,
                    ),
                decreases m - i,
            {
                if i >= m {
                    break;
                }
                proof {
                    assert(plv[1 + i as int] == pl@[1 + i as int]@);
                }
                let name = match &pl[1 + i] {
                    Exp::Atom(Atom::Symbol(n)) => n.clone(),
                    _ => {
                        return Err(EvalError::Type);
                    },
                };
                let v = match eval(&args[i], &mut local, fuel - 1) {
                    Err(er) => {
                        return Err(er);
                    },
                    Ok(v) => v,
                };
                local.insert(name, v);
                i = i + 1;
            }
            proof {
                assert(bind_spec(fuel as nat, plv, argsv, m as int, local@) == Ok::<
                    EnvV,
                    EvalErrV,
                >(local@));
                assert(plv.last() == pl@[pl@.len() - 1]@);
            }
            match eval(&pl[pl.len() - 1], &mut local, fuel - 1) {
                Err(er) => Err(er),
                Ok(v) => Ok(v),
            }
        },
        Exp::Atom(_) => Err(EvalError::Syntax),
    }
}

/// Evaluates an expression against the environment, with an explicit fuel
/// bound on the nesting of evaluation steps. The result and the
/// environment afterwards are exactly those of the spec-level interpreter.
#[verifier::loop_isolation(false)]
pub fn eval(e: &Exp, env: &mut Env, fuel: u64) -> (r: Result<Exp, EvalError>)
    ensures
        res_view(r) == eval_spec(fuel as nat, e@, old(env)@).0,
        final(env)@ == eval_spec(fuel as nat, e@, old(env)@).1,
    decreases fuel, 1int,
{
    if fuel == 0 {
        return Err(EvalError::Depth);
    }
    match e {
        Exp::Atom(Atom::Symbol(s)) => {
            match env.get(s) {
                Some(v) => Ok(v),
                None => Ok(Exp::Atom(Atom::Symbol(s.clone()))),
            }
        },
        Exp::Atom(a) => Ok(Exp::Atom(a.duplicate())),
        Exp::List(l) => {
            proof {
                lemma_list_view(*l);
            }
            let ghost lv = exps_view(*l);
            if l.len() == 0 {
                return Err(EvalError::Syntax);
            }
            let head_sym = match &l[0] {
                Exp::Atom(Atom::Symbol(h)) => h,
                _ => {
                    return Err(EvalError::Syntax);
                },
            };
            if is_kw(head_sym, "if") {
                if l.len() != 4 {
                    return Err(EvalError::Syntax);
                }
                let tv = match eval(&l[1], env, fuel - 1) {
                    Err(er) => {
                        return Err(er);
                    },
                    Ok(v) => v,
                };
                if is_true(&tv) {
                    eval(&l[2], env, fuel - 1)
                } else {
                    eval(&l[3], env, fuel - 1)
                }
            } else if is_kw(head_sym, "define") {
                if l.len() != 3 {
                    return Err(EvalError::Syntax);
                }
                let name = match &l[1] {
                    Exp::Atom(Atom::Symbol(n)) => n.clone(),
                    _ => {
                        return Err(EvalError::Type);
                    },
                };
                let v = match eval(&l[2], env, fuel - 1) {
                    Err(er) => {
                        return Err(er);
                    },
                    Ok(v) => v,
                };
                env.insert(name, v);
                Ok(Exp::Atom(Atom::Bool(true)))
            } else if is_kw(head_sym, "lambda") {
                Ok(e.deep_copy())
            } else {
                let p = match eval(&l[0], env, fuel - 1) {
                    Err(er) => {
                        return Err(er);
                    },
                    Ok(v) => v,
                };
                let ghost env_args = env@;
                let mut argv: Vec<Exp> = Vec::new();
                let mut i: usize = 1;
                loop
                    invariant
                        1 <= i <= l@.len(),
                        fuel >= 1,
                        lv == exps_view(*l),
                        eval_args(fuel as nat, lv, 1, env_args) == args_join(
                            exps_view(argv),
                            eval_args(fuel as nat, lv, i as int, env@),
                        ),
                    decreases l@.len() - i,
                {
                    if i >= l.len() {
                        break;
                    }
                    proof {
                        assert(lv[i as int] == l@[i as int]@);
                    }
                    match eval(&l[i], env, fuel - 1) {
                        Err(er) => {
                            return Err(er);
                        },
                        Ok(v) => {
                            let ghost vv = v@;
                            let ghost pre = exps_view(argv);
                            proof {
                                assert(lv[i as int] == l@[i as int]@);
                                let tail = eval_args(fuel as nat, lv, i + 1, env@);
                                match tail.0 {
                                    Err(_) => {},
                                    Ok(vs) => {
                                        assert(pre + (seq![vv] + vs) =~= (pre + seq![vv])
                                            + vs);
                                    },
                                }
                            }
                            argv.push(v);
                            proof {
                                assert(exps_view(argv) =~= pre + seq![vv]);
                            }
                            i = i + 1;
                        },
                    }
                }
                proof {
                    assert(exps_view(argv) + Seq::<ExpV>::empty() =~= exps_view(argv));
                }
                apply_proc(&p, &argv, env, fuel - 1)
            }
        },
    }
}

/// Evaluates an expression against the environment with the default fuel.
pub fn evaluate(e: &Exp, env: &mut Env) -> (r: Result<Exp, EvalError>)
    ensures
        res_view(r) == eval_spec(DEFAULT_FUEL as nat, e@, old(env)@).0,
        final(env)@ == eval_spec(DEFAULT_FUEL as nat, e@, old(env)@).1,
{
    eval(e, env, DEFAULT_FUEL)
}

} // verus!
