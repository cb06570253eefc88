//! What holds of the operations, whatever the store and the expression.

use vstd::prelude::*;
use crate::env::primitive_names;
use crate::error::Failure;
use crate::growth::{grown, law_eval_grows, law_list_stays, lemma_chain_grown};
use crate::heap::Store;
use crate::list::{
    among, lemma_chain_distinct, lemma_chain_limit, lemma_chain_links, lemma_relinked,
};
use crate::number::Arith;
use crate::reader::Lexeme;
use crate::semantics::{all_symbols, Form};
use crate::value::Value;

verus! {

/// The chain that a reversal leaves: from cell `p[j]` the cells of `p` are
/// met in falling order down to `p[0]`.
proof fn lemma_reversed_chain(st: Store, p: Seq<nat>, j: nat, limit: nat)
    requires
        p.no_duplicates(),
        forall|i: int| 0 <= i < p.len() ==> #[trigger] p[i] < st.cells.len(),
        j < p.len(),
        j < limit,
    ensures
        st.relinked(p, p.len()).chain(Value::Cons(p[j as int]), limit) == Some(
            Seq::new(j + 1, |i: int| p[j - i]),
        ),
    decreases j,
{
    let after = st.relinked(p, p.len());
    lemma_relinked(st, p, p.len());
    assert(after.cells[p[j as int] as int].1 == Store::upto(p, j));
    let tail = after.chain(Store::upto(p, j), (limit - 1) as nat);
    if j == 0 {
        assert(tail == Some(Seq::<nat>::empty()));
        assert(seq![p[0]] + Seq::<nat>::empty() =~= Seq::new(1, |i: int| p[0 - i]));
    } else {
        lemma_reversed_chain(st, p, (j - 1) as nat, (limit - 1) as nat);
        assert(seq![p[j as int]] + Seq::new(j, |i: int| p[j - 1 - i]) =~= Seq::new(
            j + 1,
            |i: int| p[j - i],
        ));
    }
}

/// Reversing a proper list twice gives back the list and the store as they
/// were, cell for cell, and a reversal keeps the number of elements.
pub proof fn law_reverse_twice(st: Store, list: Value)
    requires
        st.path(list) is Some,
    ensures
        st.reversed(list).0 is Ok,
        st.reversed(list).1.len(st.reversed(list).0->Ok_0) == st.len(list),
        st.reversed(list).1.reversed(st.reversed(list).0->Ok_0) == (
            Ok::<Value, Failure>(list),
            st,
        ),
{
    let p = st.path(list)->0;
    let n = p.len();
    let once = st.reversed(list).1;
    let head = st.reversed(list).0->Ok_0;
    lemma_chain_links(st, list, st.cells.len());
    lemma_chain_distinct(st, list, st.cells.len());
    lemma_relinked(st, p, n);
    if n == 0 {
        assert(once == st);
    } else {
        let q = Seq::new(n, |i: int| p[n - 1 - i]);
        lemma_reversed_chain(st, p, (n - 1) as nat, st.cells.len());
        assert(once.path(head) == Some(q));
        assert(q.no_duplicates());
        lemma_relinked(once, q, n);
        let twice = once.relinked(q, n);
        assert forall|i: int| 0 <= i < st.cells.len() implies twice.cells[i] == st.cells[i] by {
            if among(p, n, i as nat) {
                let j = choose|j: int| 0 <= j < n && #[trigger] p[j] == i as nat;
                assert(q[n - 1 - j] == p[j]);
                assert(twice.cells[q[n - 1 - j] as int] == (
                    once.cells[q[n - 1 - j] as int].0,
                    Store::upto(q, (n - 1 - j) as nat),
                ));
                assert(once.cells[p[j] as int].0 == st.cells[p[j] as int].0);
                assert(st.cells[p[j] as int].1 == (if j + 1 < n {
                    Value::Cons(p[j + 1])
                } else {
                    Value::Nil
                }));
                if j + 1 < n {
                    assert(q[n - 1 - j - 1] == p[j + 1]);
                }
            } else {
                assert(!among(q, n, i as nat)) by {
                    if among(q, n, i as nat) {
                        let j = choose|j: int| 0 <= j < n && #[trigger] q[j] == i as nat;
                        assert(p[n - 1 - j] == i as nat);
                    }
                }
            }
        }
        assert(twice.cells =~= st.cells);
        assert(Store::upto(q, n) == list);
    }
}

/// A reversal turns the chain round and leaves every car where it is: the
/// reversed list holds the elements of the list, last first.
pub proof fn law_reverse_elements(st: Store, list: Value)
    requires
        st.path(list) is Some,
    ensures
        ({
            let p = st.path(list)->0;
            let (head, after) = st.reversed(list);
            &&& head is Ok
            &&& after.path(head->Ok_0) == Some(p.reverse())
            &&& after.cars(p.reverse()) == st.cars(p).reverse()
            &&& after.cells.len() == st.cells.len()
            &&& after.frames == st.frames
        }),
{
    let p = st.path(list)->0;
    let n = p.len();
    let after = st.reversed(list).1;
    lemma_chain_links(st, list, st.cells.len());
    lemma_chain_distinct(st, list, st.cells.len());
    lemma_relinked(st, p, n);
    if n > 0 {
        lemma_reversed_chain(st, p, (n - 1) as nat, st.cells.len());
        assert(Seq::new(n, |i: int| p[n - 1 - i]) =~= p.reverse());
        assert(after.cars(p.reverse()) =~= st.cars(p).reverse()) by {
            assert forall|k: int| 0 <= k < n implies after.cars(p.reverse())[k] == st.cars(
                p,
            ).reverse()[k] by {
                assert(p.reverse()[k] == p[n - 1 - k]);
                assert(after.cells[p[n - 1 - k] as int].0 == st.cells[p[n - 1 - k] as int].0);
            }
        }
    } else {
        assert(p.reverse() =~= Seq::<nat>::empty());
        assert(after.cars(p.reverse()) =~= st.cars(p).reverse());
    }
}

/// The values of the elements of `items`, in their order, as far as the
/// evaluation of the list gets, where `acc` holds the values before them.
pub open spec fn values(
    st: Store,
    items: Value,
    env: nat,
    fuel: nat,
    acc: Value,
    num: spec_fn(Arith) -> u64,
) -> Seq<Value>
    decreases fuel,
{
    match items {
        Value::Cons(c) => if c < st.cells.len() && fuel > 0 {
            let (v, s1) = st.eval(st.cells[c as int].0, env, fuel, num);
            match v {
                Ok(v) => match s1.add_cell(v, acc).cdr(items) {
                    Ok(next) => seq![v] + values(
                        s1.add_cell(v, acc),
                        next,
                        env,
                        (fuel - 1) as nat,
                        Value::Cons(s1.cells.len()),
                        num,
                    ),
                    Err(_) => Seq::empty(),
                },
                Err(_) => Seq::empty(),
            }
        } else {
            Seq::empty()
        },
        _ => Seq::empty(),
    }
}

/// Where the evaluation of a list succeeds, it gives a proper list that
/// holds the values before, first to last, and then the values of the
/// elements in the order of the elements.
proof fn lemma_list_order(
    st: Store,
    items: Value,
    env: nat,
    fuel: nat,
    acc: Value,
    num: spec_fn(Arith) -> u64,
)
    requires
        st.path(acc) is Some,
        st.eval_list(items, env, fuel, acc, num).0 is Ok,
    ensures
        ({
            let (list, after) = st.eval_list(items, env, fuel, acc, num);
            &&& after.path(list->Ok_0) is Some
            &&& after.cars(after.path(list->Ok_0)->0) == st.cars(st.path(acc)->0).reverse()
                + values(st, items, env, fuel, acc, num)
        }),
    decreases fuel,
{
    let before = st.cars(st.path(acc)->0);
    match items {
        Value::Nil => {
            law_reverse_elements(st, acc);
            assert(before.reverse() + Seq::<Value>::empty() =~= before.reverse());
        },
        Value::Cons(c) => {
            let (v, s1) = st.eval(st.cells[c as int].0, env, fuel, num);
            let v = v->Ok_0;
            let s2 = s1.add_cell(v, acc);
            let next = s2.cdr(items)->Ok_0;
            let front = Value::Cons(s1.cells.len());
            law_eval_grows(st, st.cells[c as int].0, env, fuel, num);
            law_list_stays(st, s1, acc);
            let p = st.path(acc)->0;
            lemma_chain_grown(s1, s2, acc, s1.cells.len());
            assert(s2.cells[s1.cells.len() as int] == (v, acc));
            assert(s2.path(front) == Some(seq![s1.cells.len()] + p));
            lemma_chain_links(s1, acc, s1.cells.len());
            let longer = seq![s1.cells.len()] + p;
            assert(s2.cars(longer) =~= seq![v] + before) by {
                assert forall|k: int| 0 <= k < longer.len() implies s2.cars(longer)[k] == (seq![v]
                    + before)[k] by {
                    if k > 0 {
                        assert(longer[k] == p[k - 1]);
                        assert(p[k - 1] < s1.cells.len());
                        assert(s2.cells[p[k - 1] as int] == s1.cells[p[k - 1] as int]);
                        assert(s1.cars(p)[k - 1] == before[k - 1]);
                    }
                }
            }
            lemma_list_order(s2, next, env, (fuel - 1) as nat, front, num);
            let rest = values(s2, next, env, (fuel - 1) as nat, front, num);
            assert((seq![v] + before).reverse() + rest =~= before.reverse() + (seq![v] + rest));
        },
        _ => {},
    }
}

/// Where the evaluation of a list succeeds, it gives a proper list of the
/// values of the elements, in the order of the elements.
pub proof fn law_list_order(
    st: Store,
    items: Value,
    env: nat,
    fuel: nat,
    num: spec_fn(Arith) -> u64,
)
    requires
        st.eval_list(items, env, fuel, Value::Nil, num).0 is Ok,
    ensures
        ({
            let (list, after) = st.eval_list(items, env, fuel, Value::Nil, num);
            &&& after.path(list->Ok_0) is Some
            &&& after.cars(after.path(list->Ok_0)->0) == values(
                st,
                items,
                env,
                fuel,
                Value::Nil,
                num,
            )
        }),
{
    lemma_list_order(st, items, env, fuel, Value::Nil, num);
    let none = st.cars(st.path(Value::Nil)->0);
    assert(none.reverse() =~= Seq::<Value>::empty());
    assert(Seq::<Value>::empty() + values(st, items, env, fuel, Value::Nil, num) =~= values(
        st,
        items,
        env,
        fuel,
        Value::Nil,
        num,
    ));
}

/// `(quote x)` is `x` as it stands: nothing is evaluated and nothing is
/// looked up, so `x` may be a symbol that no frame binds.
pub proof fn law_quote(
    st: Store,
    expr: Value,
    x: Value,
    env: nat,
    fuel: nat,
    num: spec_fn(Arith) -> u64,
)
    requires
        expr is Cons,
        st.car(expr) == Ok::<Value, Failure>(Value::Symbol("quote"@)),
        st.cadr(expr) == Ok::<Value, Failure>(x),
        fuel > 0,
    ensures
        st.eval(expr, env, fuel, num) == (Ok::<Value, Failure>(x), st),
{
    reveal_strlit("quote");
    reveal_strlit("if");
    assert("quote"@.len() != "if"@.len());
    assert(Form::named("quote"@) == Some(Form::Quote));
    let rest = st.cdr(expr)->Ok_0;
    assert(st.eval(expr, env, fuel, num) == st.eval_special(
        rest,
        Form::Quote,
        env,
        (fuel - 1) as nat,
        num,
    ));
    assert(st.eval_special(rest, Form::Quote, env, (fuel - 1) as nat, num) == (st.car(rest), st));
}

/// `(if test a b)` where the value of `test` is not `Nil`: the value of `a`,
/// in the store that evaluating `test` left.
pub proof fn law_if_true(
    st: Store,
    expr: Value,
    test: Value,
    a: Value,
    env: nat,
    fuel: nat,
    num: spec_fn(Arith) -> u64,
)
    requires
        expr is Cons,
        st.car(expr) == Ok::<Value, Failure>(Value::Symbol("if"@)),
        st.cadr(expr) == Ok::<Value, Failure>(test),
        fuel > 0,
        st.eval(test, env, (fuel - 1) as nat, num).0 is Ok,
        !(st.eval(test, env, (fuel - 1) as nat, num).0->Ok_0 is Nil),
        ({
            let after = st.eval(test, env, (fuel - 1) as nat, num).1;
            after.cadr(st.cdr(expr)->Ok_0) == Ok::<Value, Failure>(a)
        }),
    ensures
        st.eval(expr, env, fuel, num) == st.eval(test, env, (fuel - 1) as nat, num).1.eval(
            a,
            env,
            (fuel - 1) as nat,
            num,
        ),
{
    assert(Form::named("if"@) == Some(Form::If));
    let rest = st.cdr(expr)->Ok_0;
    assert(st.eval(expr, env, fuel, num) == st.eval_special(
        rest,
        Form::If,
        env,
        (fuel - 1) as nat,
        num,
    ));
    assert(st.car(rest) == Ok::<Value, Failure>(test));
}

/// `(if test a b)` where the value of `test` is `Nil`: the value of `b`, in
/// the store that evaluating `test` left.
pub proof fn law_if_false(
    st: Store,
    expr: Value,
    test: Value,
    b: Value,
    env: nat,
    fuel: nat,
    num: spec_fn(Arith) -> u64,
)
    requires
        expr is Cons,
        st.car(expr) == Ok::<Value, Failure>(Value::Symbol("if"@)),
        st.cadr(expr) == Ok::<Value, Failure>(test),
        fuel > 0,
        st.eval(test, env, (fuel - 1) as nat, num).0 == Ok::<Value, Failure>(Value::Nil),
        ({
            let after = st.eval(test, env, (fuel - 1) as nat, num).1;
            &&& after.cdr(st.cdr(expr)->Ok_0) is Ok
            &&& after.cadr(after.cdr(st.cdr(expr)->Ok_0)->Ok_0) == Ok::<Value, Failure>(b)
        }),
    ensures
        st.eval(expr, env, fuel, num) == st.eval(test, env, (fuel - 1) as nat, num).1.eval(
            b,
            env,
            (fuel - 1) as nat,
            num,
        ),
{
    assert(Form::named("if"@) == Some(Form::If));
    let rest = st.cdr(expr)->Ok_0;
    assert(st.eval(expr, env, fuel, num) == st.eval_special(
        rest,
        Form::If,
        env,
        (fuel - 1) as nat,
        num,
    ));
    assert(st.car(rest) == Ok::<Value, Failure>(test));
}

/// `(if test a b)` with `Nil` itself as `test` is `b`, and with a number as
/// `test`, zero too, it is `a`: only `Nil` counts as false.
pub proof fn law_if_literal(
    st: Store,
    expr: Value,
    test: Value,
    a: Value,
    b: Value,
    env: nat,
    fuel: nat,
    num: spec_fn(Arith) -> u64,
)
    requires
        expr is Cons,
        st.car(expr) == Ok::<Value, Failure>(Value::Symbol("if"@)),
        st.cadr(expr) == Ok::<Value, Failure>(test),
        st.cadr(st.cdr(expr)->Ok_0) == Ok::<Value, Failure>(a),
        st.cdr(st.cdr(expr)->Ok_0) is Ok,
        st.cadr(st.cdr(st.cdr(expr)->Ok_0)->Ok_0) == Ok::<Value, Failure>(b),
        test is Nil || test is Float,
        fuel > 0,
    ensures
        test is Nil ==> st.eval(expr, env, fuel, num) == st.eval(b, env, (fuel - 1) as nat, num),
        test is Float ==> st.eval(expr, env, fuel, num) == st.eval(
            a,
            env,
            (fuel - 1) as nat,
            num,
        ),
{
    assert(st.eval(test, env, (fuel - 1) as nat, num) == (Ok::<Value, Failure>(test), st));
    if test is Nil {
        law_if_false(st, expr, test, b, env, fuel, num);
    } else {
        law_if_true(st, expr, test, a, env, fuel, num);
    }
}

/// A symbol that no frame from `env` to the root binds has no value: its
/// evaluation fails and names the symbol.
pub proof fn law_unbound(st: Store, name: Seq<char>, env: nat, fuel: nat, num: spec_fn(Arith) -> u64)
    requires
        st.lookup(env, name) is None,
    ensures
        st.eval(Value::Symbol(name), env, fuel, num) == (
            Err::<Value, Failure>(Failure::UnboundSymbol(name)),
            st,
        ),
{
}

/// What binding the primitives does to a frame: the names among the first
/// `k` are bound to their primitives, every other binding and frame stays.
proof fn lemma_with_primitives(st: Store, env: nat, names: Seq<Seq<char>>, k: nat)
    requires
        env < st.frames.len(),
        k <= names.len(),
    ensures
        ({
            let after = st.with_primitives(env, names, k);
            &&& after.cells == st.cells
            &&& after.frames.len() == st.frames.len()
            &&& forall|i: int| 0 <= i < st.frames.len() && i != env ==> after.frames[i] == st.frames[i]
            &&& after.frames[env as int].parent == st.frames[env as int].parent
            &&& forall|name: Seq<char>| #[trigger]
                after.frames[env as int].vars.contains_key(name) <==> (
                names.take(k as int).contains(name) || st.frames[env as int].vars.contains_key(name))
            &&& forall|name: Seq<char>|
                names.take(k as int).contains(name) ==> #[trigger] after.frames[env as int].vars[name]
                    == Value::PrimitiveFn(name)
        }),
    decreases k,
{
    if k > 0 {
        let before = st.with_primitives(env, names, (k - 1) as nat);
        let after = st.with_primitives(env, names, k);
        lemma_with_primitives(st, env, names, (k - 1) as nat);
        let shorter = names.take(k - 1);
        let longer = names.take(k as int);
        assert(longer =~= shorter.push(names[k - 1]));
        assert forall|name: Seq<char>| longer.contains(name) <==> (shorter.contains(name) || name
            == names[k - 1]) by {
            if shorter.contains(name) {
                let j = choose|j: int| 0 <= j < shorter.len() && shorter[j] == name;
                assert(longer[j] == name);
            }
            if name == names[k - 1] {
                assert(longer[k - 1] == name);
            }
        }
    }
}

/// A new root frame binds the names of the primitives, each to its primitive,
/// and nothing else.
pub proof fn law_root(st: Store, name: Seq<char>)
    ensures
        ({
            let root = st.frames.len();
            let after = st.open_frame(None).with_primitives(
                root,
                primitive_names(),
                primitive_names().len(),
            );
            after.lookup(root, name) == (if primitive_names().contains(name) {
                Some(Value::PrimitiveFn(name))
            } else {
                None
            })
        }),
{
    let root = st.frames.len();
    let names = primitive_names();
    lemma_with_primitives(st.open_frame(None), root, names, names.len());
    assert(names.take(names.len() as int) =~= names);
}

/// A chain is found within as many cells as it has.
proof fn lemma_chain_exact(st: Store, v: Value, limit: nat)
    requires
        st.chain(v, limit) is Some,
    ensures
        st.chain(v, st.chain(v, limit)->0.len()) == st.chain(v, limit),
    decreases limit,
{
    if let Value::Cons(c) = v {
        let tail = st.cells[c as int].1;
        lemma_chain_exact(st, tail, (limit - 1) as nat);
        let q = st.chain(tail, (limit - 1) as nat)->0;
        assert((seq![c] + q).len() == q.len() + 1);
    }
}

/// Numbers below `bound` that are all different are at most `bound` many.
proof fn lemma_pigeonhole(p: Seq<nat>, bound: nat)
    requires
        p.no_duplicates(),
        forall|k: int| 0 <= k < p.len() ==> #[trigger] p[k] < bound,
    ensures
        p.len() <= bound,
{
    let q = Seq::new(p.len(), |k: int| p[k] as int);
    assert(q.no_duplicates());
    q.unique_seq_to_set();
    vstd::set_lib::lemma_int_range(0, bound as int);
    assert(q.to_set().subset_of(vstd::set_lib::set_int_range(0, bound as int))) by {
        assert forall|x: int| q.to_set().contains(x) implies vstd::set_lib::set_int_range(
            0,
            bound as int,
        ).contains(x) by {
            let k = choose|k: int| 0 <= k < q.len() && q[k] == x;
            assert(p[k] < bound);
        }
    }
    vstd::set_lib::lemma_len_subset(q.to_set(), vstd::set_lib::set_int_range(0, bound as int));
}

/// A chain that ends in `Nil`, however long it was followed, has no more
/// cells than the store has: following a chain for as many cells as there
/// are misses no proper list.
pub proof fn law_chain_bounded(st: Store, v: Value, limit: nat)
    requires
        st.chain(v, limit) is Some,
    ensures
        st.path(v) == st.chain(v, limit),
{
    let p = st.chain(v, limit)->0;
    lemma_chain_links(st, v, limit);
    lemma_chain_distinct(st, v, limit);
    lemma_pigeonhole(p, st.cells.len());
    lemma_chain_exact(st, v, limit);
    lemma_chain_limit(st, v, p.len(), st.cells.len());
}

/// Frames that two stores have alike are searched alike.
proof fn lemma_lookup_same(st: Store, other: Store, env: nat, name: Seq<char>)
    requires
        env < st.frames.len() ==> env < other.frames.len(),
        env >= st.frames.len() ==> env >= other.frames.len(),
        forall|i: int| 0 <= i <= env && i < st.frames.len() ==> st.frames[i] == other.frames[i],
    ensures
        st.lookup(env, name) == other.lookup(env, name),
    decreases env,
{
    if env < st.frames.len() {
        let scope = st.frames[env as int];
        if !scope.vars.contains_key(name) {
            if let Some(p) = scope.parent {
                if p < env {
                    lemma_lookup_same(st, other, p, name);
                }
            }
        }
    }
}

/// The place of the last of the first `k` of `names` that is the symbol
/// `name`, or -1 where none of them is.
pub open spec fn last_named(names: Seq<Value>, k: nat, name: Seq<char>) -> int
    decreases k,
{
    if k == 0 {
        -1
    } else if names[k - 1] == Value::Symbol(name) {
        k - 1
    } else {
        last_named(names, (k - 1) as nat, name)
    }
}

/// What binding the parameters does to the frame of a call, name by name.
proof fn lemma_bound_name(
    st: Store,
    frame: nat,
    names: Seq<Value>,
    vals: Seq<Value>,
    k: nat,
    name: Seq<char>,
)
    requires
        frame < st.frames.len(),
        k <= names.len(),
        all_symbols(names),
    ensures
        -1 <= last_named(names, k, name) < k,
        st.bound(frame, names, vals, k).cells == st.cells,
        st.bound(frame, names, vals, k).frames.len() == st.frames.len(),
        forall|i: int|
            0 <= i < st.frames.len() && i != frame ==> #[trigger] st.bound(
                frame,
                names,
                vals,
                k,
            ).frames[i] == st.frames[i],
        st.bound(frame, names, vals, k).frames[frame as int].parent
            == st.frames[frame as int].parent,
        ({
            let vars = st.bound(frame, names, vals, k).frames[frame as int].vars;
            let j = last_named(names, k, name);
            if j < 0 {
                &&& vars.contains_key(name) == st.frames[frame as int].vars.contains_key(name)
                &&& vars[name] == st.frames[frame as int].vars[name]
            } else {
                &&& vars.contains_key(name)
                &&& vars[name] == vals[j]
            }
        }),
    decreases k,
{
    if k > 0 {
        lemma_bound_name(st, frame, names, vals, (k - 1) as nat, name);
        let before = st.bound(frame, names, vals, (k - 1) as nat);
        assert(names[k - 1] is Symbol);
        assert(st.bound(frame, names, vals, k) == before.bind(
            frame,
            names[k - 1]->Symbol_0,
            vals[k - 1],
        ));
    }
}

/// Inside a call, a parameter means its argument, the last of that name where
/// a name stands twice, and every other name means what it means in the frame
/// that the closure was made in, at the time of the call and not of the
/// making.
pub proof fn law_call_scope(
    st: Store,
    home: nat,
    names: Seq<Value>,
    vals: Seq<Value>,
    name: Seq<char>,
)
    requires
        names.len() == vals.len(),
        all_symbols(names),
    ensures
        ({
            let frame = st.frames.len();
            let inside = st.open_frame(Some(home)).bound(frame, names, vals, names.len());
            let j = last_named(names, names.len(), name);
            inside.lookup(frame, name) == (if j >= 0 {
                Some(vals[j])
            } else {
                st.lookup(home, name)
            })
        }),
{
    let frame = st.frames.len();
    let opened = st.open_frame(Some(home));
    let inside = opened.bound(frame, names, vals, names.len());
    lemma_bound_name(opened, frame, names, vals, names.len(), name);
    assert(opened.frames[frame as int].vars == Map::<Seq<char>, Value>::empty());
    if last_named(names, names.len(), name) < 0 {
        assert(!inside.frames[frame as int].vars.contains_key(name));
        assert(inside.frames[frame as int].parent == Some(home));
        if home < frame {
            lemma_lookup_same(st, inside, home, name);
        }
    }
}

/// Reading an expression takes at least one token and none beyond the last.
pub proof fn law_read_advances(st: Store, toks: Seq<Lexeme>, pos: nat)
    ensures
        st.read(toks, pos).0 matches Ok((_, next)) ==> pos < next <= toks.len(),
    decreases toks.len() - pos, 0nat,
{
    if pos < toks.len() && toks[pos as int] is Open {
        lemma_read_rest_advances(st, toks, pos + 1, Value::Nil);
    }
}

/// Reading the rest of a list takes at least the closing parenthesis.
proof fn lemma_read_rest_advances(st: Store, toks: Seq<Lexeme>, pos: nat, acc: Value)
    ensures
        st.read_rest(toks, pos, acc).0 matches Ok((_, next)) ==> pos < next <= toks.len(),
    decreases toks.len() - pos, 1nat,
{
    if pos < toks.len() && !(toks[pos as int] is Close) {
        law_read_advances(st, toks, pos);
        let (r, s1) = st.read(toks, pos);
        if let Ok((v, next)) = r {
            lemma_read_rest_advances(s1.add_cell(v, acc), toks, next, Value::Cons(s1.cells.len()));
        }
    }
}

} // verus!
