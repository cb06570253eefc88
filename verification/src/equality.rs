//! When two values are the same.

use vstd::prelude::*;
use crate::error::{Error, Failure};
use crate::heap::{Heap, Store};
use crate::number::{eq, equal};
use crate::text::same_text;
use crate::value::{Data, Value};

verus! {

impl Store {
    /// Whether `a` and `b` are equal in structure.
    ///
    /// Values of different kinds differ.  Symbols and primitives are equal
    /// when their names are, numbers when they have the same value, pairs
    /// when their cars are equal and their cdrs are.  A closure equals
    /// nothing, not even itself.  Fuel bounds how many pairs are entered.
    pub open spec fn equals(self, a: Value, b: Value, fuel: nat) -> Result<bool, Failure>
        decreases fuel,
    {
        match (a, b) {
            (Value::Nil, Value::Nil) => Ok(true),
            (Value::Symbol(s), Value::Symbol(t)) => Ok(s == t),
            (Value::PrimitiveFn(s), Value::PrimitiveFn(t)) => Ok(s == t),
            (Value::Float(x), Value::Float(y)) => Ok(equal(x, y)),
            (Value::Cons(c), Value::Cons(d)) => if c >= self.cells.len() || d
                >= self.cells.len() {
                Err(Failure::NotAPair)
            } else if fuel == 0 {
                Err(Failure::Exhausted)
            } else {
                match self.equals(
                    self.cells[c as int].0,
                    self.cells[d as int].0,
                    (fuel - 1) as nat,
                ) {
                    Ok(true) => self.equals(
                        self.cells[c as int].1,
                        self.cells[d as int].1,
                        (fuel - 1) as nat,
                    ),
                    other => other,
                }
            },
            _ => Ok(false),
        }
    }
}

impl Data {
    /// Whether the two values are equal in structure.
    pub fn equals(&self, other: &Data, heap: &Heap, fuel: usize) -> (r: Result<bool, Error>)
        ensures
            match heap@.equals(self@, other@, fuel as nat) {
                Ok(same) => r == Ok::<bool, Error>(same),
                Err(e) => r is Err && r->Err_0@ == e,
            },
        decreases fuel,
    {
        let ghost goal = heap@.equals(self@, other@, fuel as nat);
        let mut a: &Data = self;
        let mut b: &Data = other;
        let mut left: usize = fuel;
        loop
            invariant
                left <= fuel,
                goal == heap@.equals(self@, other@, fuel as nat),
                goal == heap@.equals(a@, b@, left as nat),
            decreases left,
        {
            match (a, b) {
                (Data::Nil, Data::Nil) => {
                    return Ok(true);
                },
                (Data::Symbol(s), Data::Symbol(t)) => {
                    return Ok(same_text(s.as_str(), t.as_str()));
                },
                (Data::PrimitiveFn(s), Data::PrimitiveFn(t)) => {
                    return Ok(same_text(s.as_str(), t.as_str()));
                },
                (Data::Float(x), Data::Float(y)) => {
                    return Ok(eq(*x, *y));
                },
                (Data::Cons(c), Data::Cons(d)) => {
                    let c = *c;
                    let d = *d;
                    if c >= heap.cell_count() || d >= heap.cell_count() {
                        return Err(Error::NotAPair);
                    }
                    if left == 0 {
                        return Err(Error::Exhausted);
                    }
                    match heap.first(c).equals(heap.first(d), heap, left - 1) {
                        Ok(true) => {},
                        Ok(false) => {
                            return Ok(false);
                        },
                        Err(e) => {
                            return Err(e);
                        },
                    }
                    a = heap.rest(c);
                    b = heap.rest(d);
                    left = left - 1;
                },
                _ => {
                    return Ok(false);
                },
            }
        }
    }
}

/// Equality does not depend on the side a value stands on.
pub proof fn law_equals_symmetric(st: Store, a: Value, b: Value, fuel: nat)
    ensures
        st.equals(a, b, fuel) == st.equals(b, a, fuel),
    decreases fuel,
{
    if let (Value::Cons(c), Value::Cons(d)) = (a, b) {
        if c < st.cells.len() && d < st.cells.len() && fuel > 0 {
            law_equals_symmetric(st, st.cells[c as int].0, st.cells[d as int].0, (fuel - 1) as nat);
            law_equals_symmetric(st, st.cells[c as int].1, st.cells[d as int].1, (fuel - 1) as nat);
        }
    }
}

/// Equality is decided by what the values hold: it is the same in any store
/// that holds the cells of this one.
pub proof fn law_equals_stays(st: Store, later: Store, a: Value, b: Value, fuel: nat)
    requires
        crate::growth::grown(st, later),
        st.equals(a, b, fuel) != Err::<bool, Failure>(Failure::NotAPair),
    ensures
        later.equals(a, b, fuel) == st.equals(a, b, fuel),
    decreases fuel,
{
    if let (Value::Cons(c), Value::Cons(d)) = (a, b) {
        if c < st.cells.len() && d < st.cells.len() && fuel > 0 {
            assert(later.cells[c as int] == st.cells[c as int]);
            assert(later.cells[d as int] == st.cells[d as int]);
            law_equals_stays(
                st,
                later,
                st.cells[c as int].0,
                st.cells[d as int].0,
                (fuel - 1) as nat,
            );
            if st.equals(st.cells[c as int].0, st.cells[d as int].0, (fuel - 1) as nat) == Ok::<
                bool,
                Failure,
            >(true) {
                law_equals_stays(
                    st,
                    later,
                    st.cells[c as int].1,
                    st.cells[d as int].1,
                    (fuel - 1) as nat,
                );
            }
        }
    }
}

} // verus!
