//! The evaluator.

use vstd::prelude::*;
use crate::error::{outcome, Error};
use crate::heap::{Heap, Store};
use crate::list::{lemma_chain_cells, lemma_chain_links};
use crate::number::{answers, pure, Arith};
use crate::primitive::Primitive;
use crate::semantics::{all_symbols, Form};
use crate::text::same_text;
use crate::value::{Data, Env, Value};

verus! {

/// The special form of this name, if it names one.
pub fn form_named(name: &str) -> (r: Option<Form>)
    ensures
        r == Form::named(name@),
{
    if same_text(name, "if") {
        Some(Form::If)
    } else if same_text(name, "quote") {
        Some(Form::Quote)
    } else if same_text(name, "define") {
        Some(Form::Define)
    } else if same_text(name, "begin") {
        Some(Form::Begin)
    } else if same_text(name, "lambda") {
        Some(Form::Lambda)
    } else {
        None
    }
}

/// Whether `s` names a special form.
pub fn special(s: &str) -> (r: bool)
    ensures
        r == (Form::named(s@) is Some),
{
    form_named(s).is_some()
}

/// What the cells of a proper list hold, for the loops that walk one.
spec fn linked(st: Store, p: Seq<nat>) -> bool {
    &&& forall|j: int| 0 <= j < p.len() ==> #[trigger] p[j] < st.cells.len()
    &&& forall|j: int|
        0 <= j < p.len() ==> (#[trigger] st.cells[p[j] as int]).1 == (if j + 1 < p.len() {
            Value::Cons(p[j + 1])
        } else {
            Value::Nil
        })
}

/// The list that starts at cell `p[k]`: `Nil` when `p` has no such cell.
spec fn from(p: Seq<nat>, k: nat) -> Value {
    if k < p.len() {
        Value::Cons(p[k as int])
    } else {
        Value::Nil
    }
}

/// Binding leaves the cells alone and makes no frame.
proof fn lemma_bound(st: Store, frame: nat, names: Seq<Value>, vals: Seq<Value>, k: nat)
    ensures
        st.bound(frame, names, vals, k).cells == st.cells,
        st.bound(frame, names, vals, k).frames.len() == st.frames.len(),
    decreases k,
{
    if k > 0 {
        lemma_bound(st, frame, names, vals, (k - 1) as nat);
    }
}

/// Whether every element of the proper list `list` is a symbol.
fn symbols_only(list: &Data, heap: &Heap) -> (r: bool)
    requires
        heap@.path(list@) is Some,
    ensures
        r == all_symbols(heap@.cars(heap@.path(list@)->0)),
{
    let ghost p = heap@.path(list@)->0;
    proof {
        lemma_chain_links(heap@, list@, heap@.cells.len());
    }
    let mut cur: &Data = list;
    let ghost mut k: nat = 0;
    loop
        invariant
            k <= p.len(),
            p == heap@.path(list@)->0,
            linked(heap@, p),
            cur@ == from(p, k),
            forall|j: int| 0 <= j < k ==> #[trigger] heap@.cars(p)[j] is Symbol,
        decreases p.len() - k,
    {
        match cur {
            Data::Cons(c) => {
                match heap.first(*c) {
                    Data::Symbol(_) => {},
                    _ => {
                        assert(!(heap@.cars(p)[k as int] is Symbol));
                        return false;
                    },
                }
                cur = heap.rest(*c);
                proof {
                    k = k + 1;
                }
            },
            _ => {
                return true;
            },
        }
    }
}

/// Binds each parameter to its argument in the frame `scope`.
fn bind_each(params: &Data, args: &Data, scope: &Env, heap: &mut Heap)
    requires
        old(heap)@.path(params@) is Some,
        old(heap)@.path(args@) is Some,
        old(heap)@.path(params@)->0.len() == old(heap)@.path(args@)->0.len(),
        all_symbols(old(heap)@.cars(old(heap)@.path(params@)->0)),
    ensures
        final(heap)@ == old(heap)@.bound(
            scope@,
            old(heap)@.cars(old(heap)@.path(params@)->0),
            old(heap)@.cars(old(heap)@.path(args@)->0),
            old(heap)@.path(params@)->0.len(),
        ),
{
    let ghost st = heap@;
    let ghost pp = st.path(params@)->0;
    let ghost ap = st.path(args@)->0;
    let ghost names = st.cars(pp);
    let ghost vals = st.cars(ap);
    proof {
        lemma_chain_links(st, params@, st.cells.len());
        lemma_chain_links(st, args@, st.cells.len());
    }
    let mut a = params.clone();
    let mut b = args.clone();
    let ghost mut k: nat = 0;
    loop
        invariant
            k <= pp.len(),
            pp.len() == ap.len(),
            names == st.cars(pp),
            vals == st.cars(ap),
            all_symbols(names),
            linked(st, pp),
            linked(st, ap),
            a@ == from(pp, k),
            b@ == from(ap, k),
            heap@ == st.bound(scope@, names, vals, k),
        ensures
            heap@ == st.bound(scope@, names, vals, pp.len()),
        decreases pp.len() - k,
    {
        proof {
            lemma_bound(st, scope@, names, vals, k);
        }
        match (&a, &b) {
            (Data::Cons(ca), Data::Cons(cb)) => {
                let ca = *ca;
                let cb = *cb;
                let value = heap.first(cb).clone();
                let next_a = heap.rest(ca).clone();
                let next_b = heap.rest(cb).clone();
                match heap.first(ca) {
                    Data::Symbol(name) => {
                        let name = name.clone();
                        scope.insert(name, value, heap);
                    },
                    _ => {
                        assert(names[k as int] is Symbol);
                    },
                }
                a = next_a;
                b = next_b;
                proof {
                    k = k + 1;
                }
            },
            _ => {
                break ;
            },
        }
    }
}

impl Data {
    /// Evaluates the expression in the frame `env`.
    ///
    /// `host` does the arithmetic of the numeric primitives, and `fuel`
    /// bounds how far the evaluation may nest.
    pub fn eval<H: Fn(Arith) -> u64>(
        &self,
        env: &Env,
        heap: &mut Heap,
        host: &H,
        fuel: usize,
    ) -> (r: Result<Data, Error>)
        requires
            pure(host),
        ensures
            outcome(r) == old(heap)@.eval(self@, env@, fuel as nat, answers(host)).0,
            final(heap)@ == old(heap)@.eval(self@, env@, fuel as nat, answers(host)).1,
        decreases fuel, 0nat,
    {
        match self {
            Data::Cons(_) => {
                if fuel == 0 {
                    return Err(Error::Exhausted);
                }
                let head = match self.car(heap) {
                    Ok(head) => head,
                    Err(e) => {
                        return Err(e);
                    },
                };
                if let Data::Symbol(name) = &head {
                    if special(name.as_str()) {
                        let rest = match self.cdr(heap) {
                            Ok(rest) => rest,
                            Err(e) => {
                                return Err(e);
                            },
                        };
                        return rest.eval_special(name.as_str(), env, heap, host, fuel - 1);
                    }
                }
                let f = match head.eval(env, heap, host, fuel - 1) {
                    Ok(f) => f,
                    Err(e) => {
                        return Err(e);
                    },
                };
                let rest = match self.cdr(heap) {
                    Ok(rest) => rest,
                    Err(e) => {
                        return Err(e);
                    },
                };
                let args = match rest.eval_list(env, heap, host, fuel - 1) {
                    Ok(args) => args,
                    Err(e) => {
                        return Err(e);
                    },
                };
                f.apply(&args, heap, host, fuel - 1)
            },
            Data::Symbol(name) => env.lookup(name, heap),
            _ => Ok(self.clone()),
        }
    }

    /// Evaluates the elements of the list from the first to the last and
    /// gives the list of their values, in the same order.
    pub fn eval_list<H: Fn(Arith) -> u64>(
        &self,
        env: &Env,
        heap: &mut Heap,
        host: &H,
        fuel: usize,
    ) -> (r: Result<Data, Error>)
        requires
            pure(host),
        ensures
            outcome(r) == old(heap)@.eval_list(
                self@,
                env@,
                fuel as nat,
                Value::Nil,
                answers(host),
            ).0,
            final(heap)@ == old(heap)@.eval_list(
                self@,
                env@,
                fuel as nat,
                Value::Nil,
                answers(host),
            ).1,
        decreases fuel, 1nat,
    {
        let ghost goal = heap@.eval_list(self@, env@, fuel as nat, Value::Nil, answers(host));
        let mut mapped = Data::Nil;
        let mut curr = self.clone();
        let mut left = fuel;
        loop
            invariant
                pure(host),
                left <= fuel,
                goal == old(heap)@.eval_list(self@, env@, fuel as nat, Value::Nil, answers(host)),
                goal == heap@.eval_list(curr@, env@, left as nat, mapped@, answers(host)),
            decreases left,
        {
            let c = match curr {
                Data::Nil => {
                    return mapped.nreverse(heap);
                },
                Data::Cons(c) => c,
                _ => {
                    return Err(Error::NotAProperList);
                },
            };
            if c >= heap.cell_count() {
                return Err(Error::NotAProperList);
            }
            if left == 0 {
                return Err(Error::Exhausted);
            }
            let item = heap.first(c).clone();
            let v = match item.eval(env, heap, host, left) {
                Ok(v) => v,
                Err(e) => {
                    return Err(e);
                },
            };
            mapped = v.cons(mapped, heap);
            curr = match curr.cdr(heap) {
                Ok(next) => next,
                Err(e) => {
                    return Err(e);
                },
            };
            left = left - 1;
        }
    }

    /// Evaluates the special form named `special`, of which `self` holds the
    /// operands.
    pub fn eval_special<H: Fn(Arith) -> u64>(
        &self,
        special: &str,
        env: &Env,
        heap: &mut Heap,
        host: &H,
        fuel: usize,
    ) -> (r: Result<Data, Error>)
        requires
            pure(host),
            Form::named(special@) is Some,
        ensures
            outcome(r) == old(heap)@.eval_special(
                self@,
                Form::named(special@)->0,
                env@,
                fuel as nat,
                answers(host),
            ).0,
            final(heap)@ == old(heap)@.eval_special(
                self@,
                Form::named(special@)->0,
                env@,
                fuel as nat,
                answers(host),
            ).1,
        decreases fuel, 2nat,
    {
        let form = match form_named(special) {
            Some(form) => form,
            None => {
                return Err(Error::NotASymbol);
            },
        };
        match form {
            Form::If => {
                let test = match self.car(heap) {
                    Ok(test) => test,
                    Err(e) => {
                        return Err(e);
                    },
                };
                let t = match test.eval(env, heap, host, fuel) {
                    Ok(t) => t,
                    Err(e) => {
                        return Err(e);
                    },
                };
                let branch = if let Data::Nil = t {
                    match self.cdr(heap) {
                        Ok(tail) => tail.cadr(heap),
                        Err(e) => Err(e),
                    }
                } else {
                    self.cadr(heap)
                };
                match branch {
                    Ok(chosen) => chosen.eval(env, heap, host, fuel),
                    Err(e) => Err(e),
                }
            },
            Form::Quote => self.car(heap),
            Form::Define => {
                let name = match self.car(heap) {
                    Ok(Data::Symbol(name)) => name,
                    Ok(_) => {
                        return Err(Error::NotASymbol);
                    },
                    Err(e) => {
                        return Err(e);
                    },
                };
                let expr = match self.cadr(heap) {
                    Ok(expr) => expr,
                    Err(e) => {
                        return Err(e);
                    },
                };
                let v = match expr.eval(env, heap, host, fuel) {
                    Ok(v) => v,
                    Err(e) => {
                        return Err(e);
                    },
                };
                env.insert(name, v.clone(), heap);
                Ok(v)
            },
            Form::Begin => {
                match self.eval_list(env, heap, host, fuel) {
                    Ok(list) => list.last(heap),
                    Err(e) => Err(e),
                }
            },
            Form::Lambda => {
                let params = match self.car(heap) {
                    Ok(params) => params,
                    Err(e) => {
                        return Err(e);
                    },
                };
                let body = match self.cadr(heap) {
                    Ok(body) => body,
                    Err(e) => {
                        return Err(e);
                    },
                };
                Ok(Data::make_fn(params, body, *env))
            },
        }
    }

    /// Applies the function to the list of arguments `args`.
    pub fn apply<H: Fn(Arith) -> u64>(&self, args: &Data, heap: &mut Heap, host: &H, fuel: usize) -> (r:
        Result<Data, Error>)
        requires
            pure(host),
        ensures
            outcome(r) == old(heap)@.apply(self@, args@, fuel as nat, answers(host)).0,
            final(heap)@ == old(heap)@.apply(self@, args@, fuel as nat, answers(host)).1,
        decreases fuel, 2nat,
    {
        match self {
            Data::Function { args: params, body, env: home } => {
                let wanted = match params.len(heap) {
                    Ok(n) => n,
                    Err(_) => {
                        return Err(Error::NotAProperList);
                    },
                };
                let given = match args.len(heap) {
                    Ok(n) => n,
                    Err(_) => {
                        return Err(Error::NotAProperList);
                    },
                };
                if wanted != given {
                    return Err(Error::ArityMismatch { expected: wanted, actual: given });
                }
                if !symbols_only(params, heap) {
                    return Err(Error::NotASymbol);
                }
                let ghost st = heap@;
                let scope = Env::new(*home, heap);
                proof {
                    let opened = st.open_frame(Some(home@));
                    assert(opened.cells == st.cells);
                    lemma_chain_cells(opened, st, params@, st.cells.len());
                    lemma_chain_cells(opened, st, args@, st.cells.len());
                    assert(opened.path(params@) == st.path(params@));
                    assert(opened.path(args@) == st.path(args@));
                    assert(opened.cars(st.path(params@)->0) == st.cars(st.path(params@)->0));
                    assert(opened.cars(st.path(args@)->0) == st.cars(st.path(args@)->0));
                }
                bind_each(params, args, &scope, heap);
                body.eval(&scope, heap, host, fuel)
            },
            Data::PrimitiveFn(name) => match Primitive::lookup(name.as_str()) {
                Some(prim) => prim.apply(args, heap, host),
                None => Err(Error::UnknownPrimitive(name.clone())),
            },
            _ => Err(Error::NotAFunction),
        }
    }
}

} // verus!
