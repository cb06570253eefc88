//! Lisp values and their mathematical counterparts.

use vstd::prelude::*;

verus! {

/// A handle to an environment frame of a [`crate::heap::Heap`].
#[derive(Clone, Copy, Debug)]
pub struct Env(pub usize);

/// A Lisp value.
///
/// Pairs and environments are not held directly: `Cons` names a pair cell and
/// `Function` names the frame it was created in, both by their position in the
/// heap.  Copies of a value therefore share cells and frames.  `Float` holds
/// the bit pattern of a double-precision number.
#[derive(Debug)]
pub enum Data {
    Nil,
    Symbol(String),
    Float(u64),
    Function { args: Box<Data>, body: Box<Data>, env: Env },
    PrimitiveFn(String),
    Cons(usize),
}

/// What a [`Data`] stands for: names are sequences of characters and handles
/// are natural numbers.
pub enum Value {
    Nil,
    Symbol(Seq<char>),
    Float(u64),
    Function { args: Box<Value>, body: Box<Value>, env: nat },
    PrimitiveFn(Seq<char>),
    Cons(nat),
}

impl View for Env {
    type V = nat;

    open spec fn view(&self) -> nat {
        self.0 as nat
    }
}

/// The value that `d` stands for.
pub open spec fn value_of(d: Data) -> Value
    decreases d,
{
    match d {
        Data::Nil => Value::Nil,
        Data::Symbol(s) => Value::Symbol(s@),
        Data::Float(bits) => Value::Float(bits),
        Data::Function { args, body, env } => Value::Function {
            args: Box::new(value_of(*args)),
            body: Box::new(value_of(*body)),
            env: env@,
        },
        Data::PrimitiveFn(s) => Value::PrimitiveFn(s@),
        Data::Cons(cell) => Value::Cons(cell as nat),
    }
}

impl View for Data {
    type V = Value;

    open spec fn view(&self) -> Value {
        value_of(*self)
    }
}

impl Clone for Data {
    /// A copy that names the same cells and frames.
    fn clone(&self) -> (res: Data)
        ensures
            res == *self,
        decreases self,
    {
        match self {
            Data::Nil => Data::Nil,
            Data::Symbol(s) => Data::Symbol(s.clone()),
            Data::Float(bits) => Data::Float(*bits),
            Data::Function { args, body, env } => Data::Function {
                args: Box::new((&**args).clone()),
                body: Box::new((&**body).clone()),
                env: *env,
            },
            Data::PrimitiveFn(s) => Data::PrimitiveFn(s.clone()),
            Data::Cons(cell) => Data::Cons(*cell),
        }
    }
}

impl Data {
    /// True exactly for a pair.
    pub fn atom(&self) -> (r: bool)
        ensures
            r == (self@ is Cons),
    {
        match self {
            Data::Cons(_) => true,
            _ => false,
        }
    }

    /// A closure over `env` with the parameter list `args` and the body `body`.
    pub fn make_fn(args: Data, body: Data, env: Env) -> (f: Data)
        ensures
            f@ == (Value::Function { args: Box::new(args@), body: Box::new(body@), env: env@ }),
    {
        Data::Function { args: Box::new(args), body: Box::new(body), env }
    }
}

} // verus!
