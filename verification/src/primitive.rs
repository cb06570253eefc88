//! The primitive table: the functions that are built in.

use vstd::prelude::*;
use crate::error::{outcome, Error, Failure};
use crate::heap::{Heap, Store};
use crate::list::lemma_chain_links;
use crate::number::{answers, ask, less, lt, pure, Arith, NAN};
use crate::text::same_text;
use crate::value::{Data, Value};

verus! {

/// A built-in function.
#[derive(Clone, Copy, Debug)]
pub enum Primitive {
    Add,
    Sub,
    Mul,
    Div,
    Lt,
    Gt,
    Not,
    Cons,
    Car,
    Cdr,
    Length,
    Exit,
}

impl Primitive {
    /// The primitive that the table holds under `name`.
    pub open spec fn named(name: Seq<char>) -> Option<Primitive> {
        if name == "+"@ {
            Some(Primitive::Add)
        } else if name == "-"@ {
            Some(Primitive::Sub)
        } else if name == "*"@ {
            Some(Primitive::Mul)
        } else if name == "/"@ {
            Some(Primitive::Div)
        } else if name == "<"@ {
            Some(Primitive::Lt)
        } else if name == ">"@ {
            Some(Primitive::Gt)
        } else if name == "not"@ {
            Some(Primitive::Not)
        } else if name == "cons"@ {
            Some(Primitive::Cons)
        } else if name == "car"@ {
            Some(Primitive::Car)
        } else if name == "cdr"@ {
            Some(Primitive::Cdr)
        } else if name == "length"@ {
            Some(Primitive::Length)
        } else if name == "exit"@ {
            Some(Primitive::Exit)
        } else {
            None
        }
    }

    /// The number of arguments that the primitive takes.  `Exit` takes any.
    pub open spec fn arity(self) -> nat {
        match self {
            Primitive::Not | Primitive::Car | Primitive::Cdr | Primitive::Length => 1,
            Primitive::Exit => 0,
            _ => 2,
        }
    }

    /// Looks `name` up in the table.
    pub fn lookup(name: &str) -> (r: Option<Primitive>)
        ensures
            r == Self::named(name@),
    {
        if same_text(name, "+") {
            Some(Primitive::Add)
        } else if same_text(name, "-") {
            Some(Primitive::Sub)
        } else if same_text(name, "*") {
            Some(Primitive::Mul)
        } else if same_text(name, "/") {
            Some(Primitive::Div)
        } else if same_text(name, "<") {
            Some(Primitive::Lt)
        } else if same_text(name, ">") {
            Some(Primitive::Gt)
        } else if same_text(name, "not") {
            Some(Primitive::Not)
        } else if same_text(name, "cons") {
            Some(Primitive::Cons)
        } else if same_text(name, "car") {
            Some(Primitive::Car)
        } else if same_text(name, "cdr") {
            Some(Primitive::Cdr)
        } else if same_text(name, "length") {
            Some(Primitive::Length)
        } else if same_text(name, "exit") {
            Some(Primitive::Exit)
        } else {
            None
        }
    }

    /// The number of arguments that the primitive takes.
    pub fn count(self) -> (n: usize)
        ensures
            n == self.arity(),
    {
        match self {
            Primitive::Not | Primitive::Car | Primitive::Cdr | Primitive::Length => 1,
            Primitive::Exit => 0,
            _ => 2,
        }
    }
}

/// The value that stands for "true" where `truth` holds, `Nil` where not.
pub open spec fn truth_value(truth: bool) -> Value {
    if truth {
        Value::Float(NAN)
    } else {
        Value::Nil
    }
}

impl Store {
    /// The result of the arithmetic primitive `prim` on `a` and `b`, with the
    /// host's arithmetic `num`: both operands have to be numbers.
    pub open spec fn arithmetic(
        prim: Primitive,
        a: Value,
        b: Value,
        num: spec_fn(Arith) -> u64,
    ) -> Result<Value, Failure> {
        match (a, b) {
            (Value::Float(x), Value::Float(y)) => Ok(
                match prim {
                    Primitive::Add => Value::Float(num(Arith::Add(x, y))),
                    Primitive::Sub => Value::Float(num(Arith::Sub(x, y))),
                    Primitive::Mul => Value::Float(num(Arith::Mul(x, y))),
                    Primitive::Div => Value::Float(num(Arith::Div(x, y))),
                    Primitive::Lt => truth_value(less(x, y)),
                    _ => truth_value(!less(x, y)),
                },
            ),
            _ => Err(Failure::TypeError),
        }
    }

    /// What applying `prim` to the argument list `args` gives, and the store
    /// it leaves.
    ///
    /// `Exit` ends the session whatever it is given.  Every other primitive
    /// wants a proper list of exactly as many arguments as its arity.  Only
    /// `Cons` changes the store: it adds one cell.
    pub open spec fn primitive(
        self,
        prim: Primitive,
        args: Value,
        num: spec_fn(Arith) -> u64,
    ) -> (Result<Value, Failure>, Store) {
        if prim is Exit {
            (Err(Failure::Exit), self)
        } else {
            match self.path(args) {
                None => (Err(Failure::NotAProperList), self),
                Some(p) => if p.len() != prim.arity() {
                    (
                        Err(Failure::ArityMismatch { expected: prim.arity(), actual: p.len() }),
                        self,
                    )
                } else {
                    let a = self.cells[p[0] as int].0;
                    let b = self.cells[p[p.len() - 1] as int].0;
                    match prim {
                        Primitive::Cons => (
                            Ok(Value::Cons(self.cells.len())),
                            self.add_cell(a, b),
                        ),
                        Primitive::Car => (self.car(a), self),
                        Primitive::Cdr => (self.cdr(a), self),
                        Primitive::Not => (Ok(truth_value(a is Nil)), self),
                        Primitive::Length => (
                            match self.path(a) {
                                Some(q) => Ok(Value::Float(num(Arith::Count(q.len() as usize)))),
                                None => Err(Failure::NotAProperList),
                            },
                            self,
                        ),
                        _ => (Self::arithmetic(prim, a, b, num), self),
                    }
                },
            }
        }
    }
}

/// The value that stands for "true" where `truth` holds, `Nil` where not.
fn truth(holds: bool) -> (d: Data)
    ensures
        d@ == truth_value(holds),
{
    if holds {
        Data::Float(NAN)
    } else {
        Data::Nil
    }
}

/// The arithmetic primitive `prim` on `a` and `b`.
fn arithmetic<H: Fn(Arith) -> u64>(prim: Primitive, a: &Data, b: &Data, host: &H) -> (r: Result<
    Data,
    Error,
>)
    requires
        pure(host),
    ensures
        outcome(r) == Store::arithmetic(prim, a@, b@, answers(host)),
{
    match (a, b) {
        (Data::Float(x), Data::Float(y)) => Ok(
            match prim {
                Primitive::Add => Data::Float(ask(host, Arith::Add(*x, *y))),
                Primitive::Sub => Data::Float(ask(host, Arith::Sub(*x, *y))),
                Primitive::Mul => Data::Float(ask(host, Arith::Mul(*x, *y))),
                Primitive::Div => Data::Float(ask(host, Arith::Div(*x, *y))),
                Primitive::Lt => truth(lt(*x, *y)),
                _ => truth(!lt(*x, *y)),
            },
        ),
        _ => Err(Error::TypeError),
    }
}

impl Primitive {
    /// Applies the primitive to the argument list `args`.
    pub fn apply<H: Fn(Arith) -> u64>(self, args: &Data, heap: &mut Heap, host: &H) -> (r: Result<
        Data,
        Error,
    >)
        requires
            pure(host),
        ensures
            outcome(r) == old(heap)@.primitive(self, args@, answers(host)).0,
            final(heap)@ == old(heap)@.primitive(self, args@, answers(host)).1,
    {
        if let Primitive::Exit = self {
            return Err(Error::Exit);
        }
        let given = match args.len(heap) {
            Ok(n) => n,
            Err(_) => {
                return Err(Error::NotAProperList);
            },
        };
        if given != self.count() {
            return Err(Error::ArityMismatch { expected: self.count(), actual: given });
        }
        proof {
            lemma_chain_links(heap@, args@, heap@.cells.len());
        }
        let a = match args.car(heap) {
            Ok(a) => a,
            Err(e) => {
                return Err(e);
            },
        };
        let b = if given == 2 {
            match args.cadr(heap) {
                Ok(b) => b,
                Err(e) => {
                    return Err(e);
                },
            }
        } else {
            a.clone()
        };
        match self {
            Primitive::Cons => Ok(a.cons(b, heap)),
            Primitive::Car => a.car(heap),
            Primitive::Cdr => a.cdr(heap),
            Primitive::Not => Ok(truth(is_nil(&a))),
            Primitive::Length => match a.len(heap) {
                Ok(n) => Ok(Data::Float(ask(host, Arith::Count(n)))),
                Err(_) => Err(Error::NotAProperList),
            },
            _ => arithmetic(self, &a, &b, host),
        }
    }
}

/// Whether `d` is `Nil`.
fn is_nil(d: &Data) -> (r: bool)
    ensures
        r == (d@ is Nil),
{
    match d {
        Data::Nil => true,
        _ => false,
    }
}

} // verus!
