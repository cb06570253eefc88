//! Fuel is a bound and nothing else.
//!
//! An evaluation that did not run out of fuel does the same with any larger
//! amount: the same value or failure, and the same store.

use vstd::prelude::*;
use crate::error::Failure;
use crate::heap::Store;
use crate::number::Arith;
use crate::semantics::{all_symbols, Form};
use crate::value::Value;

verus! {

/// Whether an evaluation ended for want of fuel.
pub open spec fn ran_out(r: (Result<Value, Failure>, Store)) -> bool {
    r.0 == Err::<Value, Failure>(Failure::Exhausted)
}

/// An evaluation that did not run out of fuel goes the same way with more.
pub proof fn law_eval_fuel(
    st: Store,
    expr: Value,
    env: nat,
    fuel: nat,
    more: nat,
    num: spec_fn(Arith) -> u64,
)
    requires
        fuel <= more,
        !ran_out(st.eval(expr, env, fuel, num)),
    ensures
        st.eval(expr, env, more, num) == st.eval(expr, env, fuel, num),
    decreases fuel, 0nat,
{
    if expr is Cons {
        if let Ok(head) = st.car(expr) {
            match Form::of(head) {
                Some(form) => {
                    if let Ok(rest) = st.cdr(expr) {
                        law_special_fuel(
                            st,
                            rest,
                            form,
                            env,
                            (fuel - 1) as nat,
                            (more - 1) as nat,
                            num,
                        );
                    }
                },
                None => {
                    law_eval_fuel(st, head, env, (fuel - 1) as nat, (more - 1) as nat, num);
                    let (f, s1) = st.eval(head, env, (fuel - 1) as nat, num);
                    if let Ok(f) = f {
                        if let Ok(rest) = s1.cdr(expr) {
                            law_list_fuel(
                                s1,
                                rest,
                                env,
                                (fuel - 1) as nat,
                                (more - 1) as nat,
                                Value::Nil,
                                num,
                            );
                            let (args, s2) = s1.eval_list(
                                rest,
                                env,
                                (fuel - 1) as nat,
                                Value::Nil,
                                num,
                            );
                            if let Ok(args) = args {
                                law_apply_fuel(
                                    s2,
                                    f,
                                    args,
                                    (fuel - 1) as nat,
                                    (more - 1) as nat,
                                    num,
                                );
                            }
                        }
                    }
                },
            }
        }
    }
}

/// The evaluation of a list that did not run out of fuel goes the same way
/// with more.
pub proof fn law_list_fuel(
    st: Store,
    items: Value,
    env: nat,
    fuel: nat,
    more: nat,
    acc: Value,
    num: spec_fn(Arith) -> u64,
)
    requires
        fuel <= more,
        !ran_out(st.eval_list(items, env, fuel, acc, num)),
    ensures
        st.eval_list(items, env, more, acc, num) == st.eval_list(items, env, fuel, acc, num),
    decreases fuel, 1nat,
{
    if let Value::Cons(c) = items {
        if c < st.cells.len() {
            law_eval_fuel(st, st.cells[c as int].0, env, fuel, more, num);
            let (v, s1) = st.eval(st.cells[c as int].0, env, fuel, num);
            if let Ok(v) = v {
                let s2 = s1.add_cell(v, acc);
                if let Ok(next) = s2.cdr(items) {
                    law_list_fuel(
                        s2,
                        next,
                        env,
                        (fuel - 1) as nat,
                        (more - 1) as nat,
                        Value::Cons(s1.cells.len()),
                        num,
                    );
                }
            }
        }
    }
}

/// The evaluation of a special form that did not run out of fuel goes the
/// same way with more.
pub proof fn law_special_fuel(
    st: Store,
    rest: Value,
    form: Form,
    env: nat,
    fuel: nat,
    more: nat,
    num: spec_fn(Arith) -> u64,
)
    requires
        fuel <= more,
        !ran_out(st.eval_special(rest, form, env, fuel, num)),
    ensures
        st.eval_special(rest, form, env, more, num) == st.eval_special(rest, form, env, fuel, num),
    decreases fuel, 2nat,
{
    match form {
        Form::If => {
            if let Ok(test) = st.car(rest) {
                law_eval_fuel(st, test, env, fuel, more, num);
                let (t, s1) = st.eval(test, env, fuel, num);
                if let Ok(t) = t {
                    let branch = if t is Nil {
                        match s1.cdr(rest) {
                            Ok(tail) => s1.cadr(tail),
                            Err(e) => Err(e),
                        }
                    } else {
                        s1.cadr(rest)
                    };
                    if let Ok(chosen) = branch {
                        law_eval_fuel(s1, chosen, env, fuel, more, num);
                    }
                }
            }
        },
        Form::Define => {
            if let Ok(Value::Symbol(name)) = st.car(rest) {
                if let Ok(expr) = st.cadr(rest) {
                    law_eval_fuel(st, expr, env, fuel, more, num);
                }
            }
        },
        Form::Begin => {
            law_list_fuel(st, rest, env, fuel, more, Value::Nil, num);
        },
        _ => {},
    }
}

/// An application that did not run out of fuel goes the same way with more.
pub proof fn law_apply_fuel(
    st: Store,
    f: Value,
    args: Value,
    fuel: nat,
    more: nat,
    num: spec_fn(Arith) -> u64,
)
    requires
        fuel <= more,
        !ran_out(st.apply(f, args, fuel, num)),
    ensures
        st.apply(f, args, more, num) == st.apply(f, args, fuel, num),
    decreases fuel, 2nat,
{
    if let Value::Function { args: params, body, env: home } = f {
        if let Some(pp) = st.path(*params) {
            if let Some(ap) = st.path(args) {
                let inside = st.open_frame(Some(home)).bound(
                    st.frames.len(),
                    st.cars(pp),
                    st.cars(ap),
                    pp.len(),
                );
                if pp.len() == ap.len() && all_symbols(st.cars(pp)) {
                    law_eval_fuel(inside, *body, st.frames.len(), fuel, more, num);
                }
            }
        }
    }
}

} // verus!
