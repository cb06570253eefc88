//! From values to text.
//!
//! A value is written as a sequence of pieces.  A piece is text, or a number
//! that is left to the host to spell.

use vstd::prelude::*;
use vstd::string::StringExecFns;
use crate::error::{Error, Failure};
use crate::heap::{Heap, Store};
use crate::value::{Data, Value};

verus! {

/// A piece of the written form of a value.
#[derive(Debug)]
pub enum Piece {
    Text(String),
    /// A number, by its bits.
    Number(u64),
}

/// What a [`Piece`] stands for.
pub enum Part {
    Text(Seq<char>),
    Number(u64),
}

impl View for Piece {
    type V = Part;

    open spec fn view(&self) -> Part {
        match self {
            Piece::Text(s) => Part::Text(s@),
            Piece::Number(bits) => Part::Number(*bits),
        }
    }
}

/// What a vector of pieces stands for.
pub open spec fn parts(v: Seq<Piece>) -> Seq<Part> {
    Seq::new(v.len(), |k: int| v[k]@)
}

/// `written` and then `rest`, where `rest` could be written.
pub open spec fn then(written: Seq<Part>, rest: Result<Seq<Part>, Failure>) -> Result<
    Seq<Part>,
    Failure,
> {
    match rest {
        Ok(more) => Ok(written + more),
        Err(e) => Err(e),
    }
}

impl Store {
    /// The written form of `v`.
    ///
    /// `Nil` is written `Nil`, a symbol as its name, a number as itself.  A
    /// pair is written as a list: a parenthesis, the elements with a blank
    /// between them, and a parenthesis; where the chain ends in something
    /// other than `Nil`, that comes last, after ` . `.  Fuel bounds the
    /// nesting and the length of what is written.
    pub open spec fn text(self, v: Value, fuel: nat) -> Result<Seq<Part>, Failure>
        decreases fuel, 0nat,
    {
        match v {
            Value::Nil => Ok(seq![Part::Text("Nil"@)]),
            Value::Symbol(name) => Ok(seq![Part::Text(name)]),
            Value::Float(bits) => Ok(seq![Part::Number(bits)]),
            Value::Function { .. } => Ok(seq![Part::Text("#<Anonymous Function>"@)]),
            Value::PrimitiveFn(name) => Ok(
                seq![Part::Text("#<Function "@), Part::Text(name), Part::Text(">"@)],
            ),
            Value::Cons(c) => if c >= self.cells.len() {
                Err(Failure::NotAPair)
            } else if fuel == 0 {
                Err(Failure::Exhausted)
            } else {
                then(
                    seq![Part::Text("("@)],
                    match self.text(self.cells[c as int].0, (fuel - 1) as nat) {
                        Ok(first) => then(
                            first,
                            self.tail_text(self.cells[c as int].1, (fuel - 1) as nat),
                        ),
                        Err(e) => Err(e),
                    },
                )
            },
        }
    }

    /// The written form of what follows the first element of a list: the
    /// further elements, each after a blank, and the closing parenthesis.
    pub open spec fn tail_text(self, v: Value, fuel: nat) -> Result<Seq<Part>, Failure>
        decreases fuel, 1nat,
    {
        match v {
            Value::Nil => Ok(seq![Part::Text(")"@)]),
            Value::Cons(c) => if c >= self.cells.len() {
                Err(Failure::NotAPair)
            } else if fuel == 0 {
                Err(Failure::Exhausted)
            } else {
                then(
                    seq![Part::Text(" "@)],
                    match self.text(self.cells[c as int].0, (fuel - 1) as nat) {
                        Ok(item) => then(
                            item,
                            self.tail_text(self.cells[c as int].1, (fuel - 1) as nat),
                        ),
                        Err(e) => Err(e),
                    },
                )
            },
            _ => then(
                seq![Part::Text(" . "@)],
                match self.text(v, fuel) {
                    Ok(last) => Ok(last + seq![Part::Text(")"@)]),
                    Err(e) => Err(e),
                },
            ),
        }
    }
}

/// Adds the text `s` to what is written.
fn put(out: &mut Vec<Piece>, s: &str)
    ensures
        parts(final(out)@) == parts(old(out)@).push(Part::Text(s@)),
{
    out.push(Piece::Text(String::from_str(s)));
    assert(parts(out@) =~= parts(old(out)@).push(Part::Text(s@)));
}

impl Data {
    /// The written form of the value.
    pub fn show(&self, heap: &Heap, fuel: usize) -> (r: Result<Vec<Piece>, Error>)
        ensures
            match heap@.text(self@, fuel as nat) {
                Ok(t) => r is Ok && parts(r->Ok_0@) == t,
                Err(e) => r is Err && r->Err_0@ == e,
            },
    {
        let mut out: Vec<Piece> = Vec::new();
        assert(parts(out@) =~= Seq::empty());
        match self.write(heap, fuel, &mut out) {
            Ok(()) => {
                assert(Seq::<Part>::empty() + heap@.text(self@, fuel as nat)->Ok_0 =~= heap@.text(
                    self@,
                    fuel as nat,
                )->Ok_0);
                Ok(out)
            },
            Err(e) => Err(e),
        }
    }

    /// Adds the written form of the value to `out`.
    pub fn write(&self, heap: &Heap, fuel: usize, out: &mut Vec<Piece>) -> (r: Result<(), Error>)
        ensures
            match heap@.text(self@, fuel as nat) {
                Ok(t) => r is Ok && parts(final(out)@) == parts(old(out)@) + t,
                Err(e) => r is Err && r->Err_0@ == e,
            },
        decreases fuel,
    {
        let ghost st = heap@;
        let ghost start = parts(out@);
        let c = match self {
            Data::Nil => {
                put(out, "Nil");
                assert(start.push(Part::Text("Nil"@)) =~= start + seq![Part::Text("Nil"@)]);
                return Ok(());
            },
            Data::Symbol(name) => {
                put(out, name.as_str());
                assert(start.push(Part::Text(name@)) =~= start + seq![Part::Text(name@)]);
                return Ok(());
            },
            Data::Float(bits) => {
                out.push(Piece::Number(*bits));
                assert(parts(out@) =~= start + seq![Part::Number(*bits)]);
                return Ok(());
            },
            Data::Function { .. } => {
                put(out, "#<Anonymous Function>");
                assert(start.push(Part::Text("#<Anonymous Function>"@)) =~= start
                    + seq![Part::Text("#<Anonymous Function>"@)]);
                return Ok(());
            },
            Data::PrimitiveFn(name) => {
                put(out, "#<Function ");
                put(out, name.as_str());
                put(out, ">");
                assert(start.push(Part::Text("#<Function "@)).push(Part::Text(name@)).push(
                    Part::Text(">"@),
                ) =~= start + seq![
                    Part::Text("#<Function "@),
                    Part::Text(name@),
                    Part::Text(">"@),
                ]);
                return Ok(());
            },
            Data::Cons(c) => *c,
        };
        if c >= heap.cell_count() {
            return Err(Error::NotAPair);
        }
        if fuel == 0 {
            return Err(Error::Exhausted);
        }
        let ghost goal = st.text(self@, fuel as nat);
        put(out, "(");
        let ghost mut written: Seq<Part> = seq![Part::Text("("@)];
        assert(parts(out@) =~= start + written);
        match heap.first(c).write(heap, fuel - 1, out) {
            Ok(()) => {},
            Err(e) => {
                return Err(e);
            },
        }
        let ghost first = st.text(st.cells[c as int].0, (fuel - 1) as nat)->Ok_0;
        proof {
            let rest = st.tail_text(st.cells[c as int].1, (fuel - 1) as nat);
            if let Ok(more) = rest {
                assert(written + (first + more) =~= (written + first) + more);
            }
            assert(start + written + first =~= start + (written + first));
            written = written + first;
        }
        let mut focus: &Data = heap.rest(c);
        let mut left: usize = fuel - 1;
        loop
            invariant
                st == heap@,
                start == parts(old(out)@),
                left < fuel,
                goal == st.text(self@, fuel as nat),
                goal == then(written, st.tail_text(focus@, left as nat)),
                parts(out@) == start + written,
            decreases left,
        {
            let ghost before = written;
            match focus {
                Data::Nil => {
                    put(out, ")");
                    assert((start + written).push(Part::Text(")"@)) =~= start + (written
                        + seq![Part::Text(")"@)]));
                    return Ok(());
                },
                Data::Cons(d) => {
                    let d = *d;
                    if d >= heap.cell_count() {
                        return Err(Error::NotAPair);
                    }
                    if left == 0 {
                        return Err(Error::Exhausted);
                    }
                    put(out, " ");
                    match heap.first(d).write(heap, left - 1, out) {
                        Ok(()) => {},
                        Err(e) => {
                            return Err(e);
                        },
                    }
                    proof {
                        let blank = seq![Part::Text(" "@)];
                        let item = st.text(st.cells[d as int].0, (left - 1) as nat)->Ok_0;
                        let rest = st.tail_text(st.cells[d as int].1, (left - 1) as nat);
                        if let Ok(more) = rest {
                            assert(before + (blank + (item + more)) =~= (before + blank + item)
                                + more);
                        }
                        assert((start + before).push(Part::Text(" "@)) + item =~= start + (before
                            + blank + item));
                        written = before + blank + item;
                    }
                    focus = heap.rest(d);
                    left = left - 1;
                },
                _ => {
                    put(out, " . ");
                    match focus.write(heap, left, out) {
                        Ok(()) => {},
                        Err(e) => {
                            return Err(e);
                        },
                    }
                    put(out, ")");
                    proof {
                        let dot = seq![Part::Text(" . "@)];
                        let last = st.text(focus@, left as nat)->Ok_0;
                        let close = seq![Part::Text(")"@)];
                        assert(((start + before).push(Part::Text(" . "@)) + last).push(
                            Part::Text(")"@),
                        ) =~= start + (before + (dot + (last + close))));
                    }
                    return Ok(());
                },
            }
        }
    }
}

} // verus!
