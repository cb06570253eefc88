//! Evaluation only adds to the store.
//!
//! Whatever an evaluation does, every cell that was there before holds what
//! it held, and every frame that was there before is still opened in the same
//! frame.  A value got hold of before an evaluation therefore means the same
//! after it, and a list that was proper stays the proper list it was.

use vstd::prelude::*;
use crate::heap::Store;
use crate::list::{among, lemma_chain_distinct, lemma_chain_limit, lemma_chain_links, lemma_relinked};
use crate::number::Arith;
use crate::primitive::Primitive;
use crate::semantics::Form;
use crate::value::Value;

verus! {

/// Whether `later` has every cell below `base` as `st` has it, no fewer cells
/// than `st`, and every frame of `st` with the parent it has there.
pub open spec fn kept(st: Store, later: Store, base: nat) -> bool {
    &&& st.cells.len() <= later.cells.len()
    &&& forall|i: int| 0 <= i < base && i < st.cells.len() ==> #[trigger] later.cells[i] == st.cells[i]
    &&& st.frames.len() <= later.frames.len()
    &&& forall|i: int|
        0 <= i < st.frames.len() ==> (#[trigger] later.frames[i]).parent == st.frames[i].parent
}

/// Whether `later` has every cell of `st` as it is there, and every frame of
/// `st` with the parent it has there.
pub open spec fn grown(st: Store, later: Store) -> bool {
    kept(st, later, st.cells.len())
}

/// Whether `acc` is a proper list in `st` made of cells from `base` on.
pub open spec fn fresh(st: Store, acc: Value, base: nat) -> bool {
    &&& st.path(acc) is Some
    &&& forall|k: int| 0 <= k < st.path(acc)->0.len() ==> #[trigger] st.path(acc)->0[k] >= base
}

/// A chain in a store is the same chain in a store grown from it.
pub proof fn lemma_chain_grown(st: Store, later: Store, v: Value, limit: nat)
    requires
        grown(st, later),
        st.chain(v, limit) is Some,
    ensures
        later.chain(v, limit) == st.chain(v, limit),
    decreases limit,
{
    if let Value::Cons(c) = v {
        assert(later.cells[c as int] == st.cells[c as int]);
        lemma_chain_grown(st, later, st.cells[c as int].1, (limit - 1) as nat);
    }
}

/// A proper list in a store is the same proper list in a store grown from it.
pub proof fn law_list_stays(st: Store, later: Store, v: Value)
    requires
        grown(st, later),
        st.path(v) is Some,
    ensures
        later.path(v) == st.path(v),
        later.cars(later.path(v)->0) == st.cars(st.path(v)->0),
{
    lemma_chain_grown(st, later, v, st.cells.len());
    lemma_chain_limit(later, v, st.cells.len(), later.cells.len());
    lemma_chain_links(st, v, st.cells.len());
    let p = st.path(v)->0;
    assert(later.cars(p) =~= st.cars(p)) by {
        assert forall|k: int| 0 <= k < p.len() implies later.cars(p)[k] == st.cars(p)[k] by {
            assert(p[k] < st.cells.len());
            assert(later.cells[p[k] as int] == st.cells[p[k] as int]);
        }
    }
}

/// Reversing a list made of cells from `base` on keeps every cell below.
proof fn lemma_reversed_kept(st: Store, acc: Value, base: nat)
    requires
        fresh(st, acc, base),
    ensures
        kept(st, st.reversed(acc).1, base),
        st.reversed(acc).1.cells.len() == st.cells.len(),
{
    let p = st.path(acc)->0;
    lemma_chain_links(st, acc, st.cells.len());
    lemma_chain_distinct(st, acc, st.cells.len());
    lemma_relinked(st, p, p.len());
    let after = st.relinked(p, p.len());
    assert forall|i: int| 0 <= i < base && i < st.cells.len() implies #[trigger] after.cells[i]
        == st.cells[i] by {
        if among(p, p.len(), i as nat) {
            let j = choose|j: int| 0 <= j < p.len() && #[trigger] p[j] == i as nat;
            assert(p[j] >= base);
        }
    }
}

/// A new cell in front of a list of cells from `base` on is such a list.
proof fn lemma_fresh_cons(st: Store, v: Value, acc: Value, base: nat)
    requires
        fresh(st, acc, base),
        base <= st.cells.len(),
    ensures
        fresh(st.add_cell(v, acc), Value::Cons(st.cells.len()), base),
{
    let more = st.add_cell(v, acc);
    let p = st.path(acc)->0;
    lemma_chain_grown(st, more, acc, st.cells.len());
    assert(more.cells[st.cells.len() as int] == (v, acc));
    assert(more.path(Value::Cons(st.cells.len())) == Some(seq![st.cells.len()] + p));
}

/// A list of cells from `base` on stays one in a store grown from its own.
proof fn lemma_fresh_grown(st: Store, later: Store, acc: Value, base: nat)
    requires
        fresh(st, acc, base),
        grown(st, later),
    ensures
        fresh(later, acc, base),
{
    law_list_stays(st, later, acc);
}

/// Binding the parameters changes no cell and the parent of no frame.
proof fn lemma_bound_grown(st: Store, frame: nat, names: Seq<Value>, vals: Seq<Value>, k: nat)
    ensures
        grown(st, st.bound(frame, names, vals, k)),
        st.bound(frame, names, vals, k).cells == st.cells,
    decreases k,
{
    if k > 0 {
        lemma_bound_grown(st, frame, names, vals, (k - 1) as nat);
    }
}

/// The primitives only add to the store.
pub proof fn law_primitive_grows(st: Store, prim: Primitive, args: Value, num: spec_fn(Arith) -> u64)
    ensures
        grown(st, st.primitive(prim, args, num).1),
{
}

/// Evaluation only adds to the store: every cell and every frame's parent
/// stays as it was.
pub proof fn law_eval_grows(
    st: Store,
    expr: Value,
    env: nat,
    fuel: nat,
    num: spec_fn(Arith) -> u64,
)
    ensures
        grown(st, st.eval(expr, env, fuel, num).1),
    decreases fuel, 0nat,
{
    if expr is Cons && fuel > 0 {
        if let Ok(head) = st.car(expr) {
            match Form::of(head) {
                Some(form) => {
                    if let Ok(rest) = st.cdr(expr) {
                        law_special_grows(st, rest, form, env, (fuel - 1) as nat, num);
                    }
                },
                None => {
                    law_eval_grows(st, head, env, (fuel - 1) as nat, num);
                    let (f, s1) = st.eval(head, env, (fuel - 1) as nat, num);
                    if let Ok(f) = f {
                        if let Ok(rest) = s1.cdr(expr) {
                            law_list_grows(s1, rest, env, (fuel - 1) as nat, num);
                            let (args, s2) = s1.eval_list(
                                rest,
                                env,
                                (fuel - 1) as nat,
                                Value::Nil,
                                num,
                            );
                            if let Ok(args) = args {
                                law_apply_grows(s2, f, args, (fuel - 1) as nat, num);
                            }
                        }
                    }
                },
            }
        }
    }
}

/// Evaluating the elements of a list only adds to the store.
pub proof fn law_list_grows(
    st: Store,
    items: Value,
    env: nat,
    fuel: nat,
    num: spec_fn(Arith) -> u64,
)
    ensures
        grown(st, st.eval_list(items, env, fuel, Value::Nil, num).1),
    decreases fuel, 2nat,
{
    assert(st.path(Value::Nil) == Some(Seq::<nat>::empty()));
    lemma_list_kept(st, items, env, fuel, Value::Nil, st.cells.len(), num);
}

/// Evaluating the elements of a list keeps every cell that is not one of the
/// cells made for the values so far.
proof fn lemma_list_kept(
    st: Store,
    items: Value,
    env: nat,
    fuel: nat,
    acc: Value,
    base: nat,
    num: spec_fn(Arith) -> u64,
)
    requires
        fresh(st, acc, base),
        base <= st.cells.len(),
    ensures
        kept(st, st.eval_list(items, env, fuel, acc, num).1, base),
    decreases fuel, 1nat,
{
    match items {
        Value::Nil => {
            lemma_reversed_kept(st, acc, base);
        },
        Value::Cons(c) => {
            if c < st.cells.len() && fuel > 0 {
                law_eval_grows(st, st.cells[c as int].0, env, fuel, num);
                let (v, s1) = st.eval(st.cells[c as int].0, env, fuel, num);
                if let Ok(v) = v {
                    let s2 = s1.add_cell(v, acc);
                    lemma_fresh_grown(st, s1, acc, base);
                    lemma_fresh_cons(s1, v, acc, base);
                    if let Ok(next) = s2.cdr(items) {
                        lemma_list_kept(
                            s2,
                            next,
                            env,
                            (fuel - 1) as nat,
                            Value::Cons(s1.cells.len()),
                            base,
                            num,
                        );
                    }
                }
            }
        },
        _ => {},
    }
}

/// Evaluating a special form only adds to the store.
pub proof fn law_special_grows(
    st: Store,
    rest: Value,
    form: Form,
    env: nat,
    fuel: nat,
    num: spec_fn(Arith) -> u64,
)
    ensures
        grown(st, st.eval_special(rest, form, env, fuel, num).1),
    decreases fuel, 3nat,
{
    match form {
        Form::If => {
            if let Ok(test) = st.car(rest) {
                law_eval_grows(st, test, env, fuel, num);
                let (t, s1) = st.eval(test, env, fuel, num);
                if let Ok(t) = t {
                    let branch = if t is Nil {
                        match s1.cdr(rest) {
                            Ok(tail) => s1.cadr(tail),
                            Err(e) => Err(e),
                        }
                    } else {
                        s1.cadr(rest)
                    };
                    if let Ok(chosen) = branch {
                        law_eval_grows(s1, chosen, env, fuel, num);
                    }
                }
            }
        },
        Form::Define => {
            if let Ok(Value::Symbol(name)) = st.car(rest) {
                if let Ok(expr) = st.cadr(rest) {
                    law_eval_grows(st, expr, env, fuel, num);
                }
            }
        },
        Form::Begin => {
            law_list_grows(st, rest, env, fuel, num);
        },
        _ => {},
    }
}

/// Applying a function only adds to the store.
pub proof fn law_apply_grows(
    st: Store,
    f: Value,
    args: Value,
    fuel: nat,
    num: spec_fn(Arith) -> u64,
)
    ensures
        grown(st, st.apply(f, args, fuel, num).1),
    decreases fuel, 3nat,
{
    match f {
        Value::Function { args: params, body, env: home } => {
            if let Some(pp) = st.path(*params) {
                if let Some(ap) = st.path(args) {
                    let opened = st.open_frame(Some(home));
                    let inside = opened.bound(
                        st.frames.len(),
                        st.cars(pp),
                        st.cars(ap),
                        pp.len(),
                    );
                    lemma_bound_grown(opened, st.frames.len(), st.cars(pp), st.cars(ap), pp.len());
                    law_eval_grows(inside, *body, st.frames.len(), fuel, num);
                }
            }
        },
        Value::PrimitiveFn(name) => {
            if let Some(prim) = Primitive::named(name) {
                law_primitive_grows(st, prim, args, num);
            }
        },
        _ => {},
    }
}

} // verus!
