//! What evaluation means.
//!
//! The meaning of an expression is a function of the store, the expression,
//! the frame it is evaluated in, the fuel and the host's arithmetic.  It gives
//! the value or the failure, and the store that the evaluation leaves behind.
//!
//! Fuel keeps every evaluation finite.  A pair needs one unit more than its
//! deepest part, and the elements of an argument list are given one unit less
//! from each to the next; an atom needs none.  An evaluation that would need
//! more than it was given stops with `Exhausted`.

use vstd::prelude::*;
use crate::error::Failure;
use crate::heap::Store;
use crate::number::Arith;
use crate::primitive::Primitive;
use crate::value::Value;

verus! {

/// An operator with evaluation rules of its own.
#[derive(Clone, Copy, Debug)]
pub enum Form {
    If,
    Quote,
    Define,
    Begin,
    Lambda,
}

impl Form {
    /// The special form of this name.
    pub open spec fn named(name: Seq<char>) -> Option<Form> {
        if name == "if"@ {
            Some(Form::If)
        } else if name == "quote"@ {
            Some(Form::Quote)
        } else if name == "define"@ {
            Some(Form::Define)
        } else if name == "begin"@ {
            Some(Form::Begin)
        } else if name == "lambda"@ {
            Some(Form::Lambda)
        } else {
            None
        }
    }

    /// The special form that `head` names, where it is a symbol that names
    /// one.
    pub open spec fn of(head: Value) -> Option<Form> {
        match head {
            Value::Symbol(name) => Form::named(name),
            _ => None,
        }
    }
}

/// Whether every one of `names` is a symbol.
pub open spec fn all_symbols(names: Seq<Value>) -> bool {
    forall|k: int| 0 <= k < names.len() ==> #[trigger] names[k] is Symbol
}

impl Store {
    /// The store in which frame `frame` binds the first `k` of `names`, each
    /// to the value at its place in `vals`, the later over the earlier.
    pub open spec fn bound(self, frame: nat, names: Seq<Value>, vals: Seq<Value>, k: nat) -> Store
        decreases k,
    {
        if k == 0 {
            self
        } else {
            self.bound(frame, names, vals, (k - 1) as nat).define(
                frame,
                names[k - 1]->Symbol_0,
                vals[k - 1],
            )
        }
    }

    /// The value of `expr` in frame `env`.
    ///
    /// A symbol is looked up.  A pair whose car names a special form goes by
    /// that form's rule.  Any other pair is a call: the car is evaluated to
    /// the function, the elements of the cdr to the arguments, and the
    /// function is applied.  Everything else is its own value.
    pub open spec fn eval(self, expr: Value, env: nat, fuel: nat, num: spec_fn(Arith) -> u64) -> (
        Result<Value, Failure>,
        Store,
    )
        decreases fuel, 0nat,
    {
        match expr {
            Value::Cons(_) => if fuel == 0 {
                (Err(Failure::Exhausted), self)
            } else {
                match self.car(expr) {
                    Err(e) => (Err(e), self),
                    Ok(head) => match Form::of(head) {
                        Some(form) => match self.cdr(expr) {
                            Err(e) => (Err(e), self),
                            Ok(rest) => self.eval_special(rest, form, env, (fuel - 1) as nat, num),
                        },
                        None => {
                            let (f, s1) = self.eval(head, env, (fuel - 1) as nat, num);
                            match f {
                                Err(e) => (Err(e), s1),
                                Ok(f) => match s1.cdr(expr) {
                                    Err(e) => (Err(e), s1),
                                    Ok(rest) => {
                                        let (args, s2) = s1.eval_list(
                                            rest,
                                            env,
                                            (fuel - 1) as nat,
                                            Value::Nil,
                                            num,
                                        );
                                        match args {
                                            Err(e) => (Err(e), s2),
                                            Ok(args) => s2.apply(f, args, (fuel - 1) as nat, num),
                                        }
                                    },
                                },
                            }
                        },
                    },
                }
            },
            Value::Symbol(name) => (
                match self.lookup(env, name) {
                    Some(v) => Ok(v),
                    None => Err(Failure::UnboundSymbol(name)),
                },
                self,
            ),
            _ => (Ok(expr), self),
        }
    }

    /// The list of the values of the elements of `items`, in their order.
    ///
    /// The elements are evaluated from the first to the last.  Each value is
    /// put in a new cell in front of `acc`, the values so far, and at the end
    /// that chain is reversed in place.
    pub open spec fn eval_list(
        self,
        items: Value,
        env: nat,
        fuel: nat,
        acc: Value,
        num: spec_fn(Arith) -> u64,
    ) -> (Result<Value, Failure>, Store)
        decreases fuel, 1nat,
    {
        match items {
            Value::Nil => self.reversed(acc),
            Value::Cons(c) => if c >= self.cells.len() {
                (Err(Failure::NotAProperList), self)
            } else if fuel == 0 {
                (Err(Failure::Exhausted), self)
            } else {
                let (v, s1) = self.eval(self.cells[c as int].0, env, fuel, num);
                match v {
                    Err(e) => (Err(e), s1),
                    Ok(v) => {
                        let s2 = s1.add_cell(v, acc);
                        match s2.cdr(items) {
                            Err(e) => (Err(e), s2),
                            Ok(next) => s2.eval_list(
                                next,
                                env,
                                (fuel - 1) as nat,
                                Value::Cons(s1.cells.len()),
                                num,
                            ),
                        }
                    },
                }
            },
            _ => (Err(Failure::NotAProperList), self),
        }
    }

    /// The value of the special form `form` with the operands `rest`.
    pub open spec fn eval_special(
        self,
        rest: Value,
        form: Form,
        env: nat,
        fuel: nat,
        num: spec_fn(Arith) -> u64,
    ) -> (Result<Value, Failure>, Store)
        decreases fuel, 2nat,
    {
        match form {
            Form::If => match self.car(rest) {
                Err(e) => (Err(e), self),
                Ok(test) => {
                    let (t, s1) = self.eval(test, env, fuel, num);
                    match t {
                        Err(e) => (Err(e), s1),
                        Ok(t) => {
                            let branch = if t is Nil {
                                match s1.cdr(rest) {
                                    Ok(tail) => s1.cadr(tail),
                                    Err(e) => Err(e),
                                }
                            } else {
                                s1.cadr(rest)
                            };
                            match branch {
                                Err(e) => (Err(e), s1),
                                Ok(chosen) => s1.eval(chosen, env, fuel, num),
                            }
                        },
                    }
                },
            },
            Form::Quote => (self.car(rest), self),
            Form::Define => match self.car(rest) {
                Err(e) => (Err(e), self),
                Ok(Value::Symbol(name)) => match self.cadr(rest) {
                    Err(e) => (Err(e), self),
                    Ok(expr) => {
                        let (v, s1) = self.eval(expr, env, fuel, num);
                        match v {
                            Err(e) => (Err(e), s1),
                            Ok(v) => (Ok(v), s1.define(env, name, v)),
                        }
                    },
                },
                Ok(_) => (Err(Failure::NotASymbol), self),
            },
            Form::Begin => {
                let (list, s1) = self.eval_list(rest, env, fuel, Value::Nil, num);
                match list {
                    Err(e) => (Err(e), s1),
                    Ok(list) => (s1.last(list), s1),
                }
            },
            Form::Lambda => match self.car(rest) {
                Err(e) => (Err(e), self),
                Ok(params) => match self.cadr(rest) {
                    Err(e) => (Err(e), self),
                    Ok(body) => (
                        Ok(
                            Value::Function {
                                args: Box::new(params),
                                body: Box::new(body),
                                env: env,
                            },
                        ),
                        self,
                    ),
                },
            },
        }
    }

    /// What applying `f` to the argument list `args` gives.
    ///
    /// A closure wants a proper list of exactly as many arguments as it has
    /// parameters, and every parameter a symbol.  A new frame is opened in the
    /// closure's own frame, binds each parameter to its argument, and the
    /// body is evaluated there.  A primitive is looked up in the table and
    /// applied.
    pub open spec fn apply(self, f: Value, args: Value, fuel: nat, num: spec_fn(Arith) -> u64) -> (
        Result<Value, Failure>,
        Store,
    )
        decreases fuel, 2nat,
    {
        match f {
            Value::Function { args: params, body, env: home } => match self.path(*params) {
                None => (Err(Failure::NotAProperList), self),
                Some(pp) => match self.path(args) {
                    None => (Err(Failure::NotAProperList), self),
                    Some(ap) => if pp.len() != ap.len() {
                        (
                            Err(Failure::ArityMismatch { expected: pp.len(), actual: ap.len() }),
                            self,
                        )
                    } else if !all_symbols(self.cars(pp)) {
                        (Err(Failure::NotASymbol), self)
                    } else {
                        self.open_frame(Some(home)).bound(
                            self.frames.len(),
                            self.cars(pp),
                            self.cars(ap),
                            pp.len(),
                        ).eval(*body, self.frames.len(), fuel, num)
                    },
                },
            },
            Value::PrimitiveFn(name) => match Primitive::named(name) {
                None => (Err(Failure::UnknownPrimitive(name)), self),
                Some(prim) => self.primitive(prim, args, num),
            },
            _ => (Err(Failure::NotAFunction), self),
        }
    }
}

} // verus!
