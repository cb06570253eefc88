//! Pairs and the lists built from them.
//!
//! A list is a chain of cells linked through their cdrs.  It is proper when
//! the chain ends in `Nil`.  A chain that ends in `Nil` visits no cell twice,
//! so it is followed for at most as many steps as the heap has cells.

use vstd::prelude::*;
use crate::error::{outcome, Error, Failure};
use crate::heap::{Heap, Store};
use crate::value::{Data, Value};

verus! {

impl Store {
    /// The car of `v`: the first slot of a pair, `Nil` for `Nil`.
    pub open spec fn car(self, v: Value) -> Result<Value, Failure> {
        match v {
            Value::Nil => Ok(Value::Nil),
            Value::Cons(c) => if c < self.cells.len() {
                Ok(self.cells[c as int].0)
            } else {
                Err(Failure::NotAPair)
            },
            _ => Err(Failure::NotAPair),
        }
    }

    /// The cdr of `v`: the second slot of a pair, `Nil` for `Nil`.
    pub open spec fn cdr(self, v: Value) -> Result<Value, Failure> {
        match v {
            Value::Nil => Ok(Value::Nil),
            Value::Cons(c) => if c < self.cells.len() {
                Ok(self.cells[c as int].1)
            } else {
                Err(Failure::NotAPair)
            },
            _ => Err(Failure::NotAPair),
        }
    }

    /// The car of the cdr of `v`.
    pub open spec fn cadr(self, v: Value) -> Result<Value, Failure> {
        match self.cdr(v) {
            Ok(tail) => self.car(tail),
            Err(e) => Err(e),
        }
    }

    /// The cells of the chain that starts at `v`, in order, if the chain
    /// reaches `Nil` within `limit` cells.
    pub open spec fn chain(self, v: Value, limit: nat) -> Option<Seq<nat>>
        decreases limit,
    {
        match v {
            Value::Nil => Some(Seq::empty()),
            Value::Cons(c) => if c < self.cells.len() && limit > 0 {
                match self.chain(self.cells[c as int].1, (limit - 1) as nat) {
                    Some(p) => Some(seq![c] + p),
                    None => None,
                }
            } else {
                None
            },
            _ => None,
        }
    }

    /// The cells of the proper list `v`, in order; `None` when `v` is not a
    /// proper list.
    pub open spec fn path(self, v: Value) -> Option<Seq<nat>> {
        self.chain(v, self.cells.len())
    }

    /// The elements of the proper list whose cells are `p`.
    pub open spec fn cars(self, p: Seq<nat>) -> Seq<Value> {
        Seq::new(p.len(), |k: int| self.cells[p[k] as int].0)
    }

    /// The number of elements of the proper list `v`.
    pub open spec fn len(self, v: Value) -> Result<nat, Failure> {
        match self.path(v) {
            Some(p) => Ok(p.len()),
            None => Err(Failure::NotAProperList),
        }
    }

    /// The last element of the proper list `v`, which has to have one.
    pub open spec fn last(self, v: Value) -> Result<Value, Failure> {
        match self.path(v) {
            Some(p) => if p.len() > 0 {
                Ok(self.cells[p.last() as int].0)
            } else {
                Err(Failure::NotAProperList)
            },
            None => Err(Failure::NotAProperList),
        }
    }

    /// The list that ends with cell `p[k - 1]`: `Nil` when `k` is 0.
    pub open spec fn upto(p: Seq<nat>, k: nat) -> Value {
        if k == 0 {
            Value::Nil
        } else {
            Value::Cons(p[k - 1])
        }
    }

    /// The store in which each of the first `k` cells of `p` has its
    /// predecessor in `p` as cdr, and the first of them `Nil`.
    pub open spec fn relinked(self, p: Seq<nat>, k: nat) -> Store
        decreases k,
    {
        if k == 0 {
            self
        } else {
            self.relinked(p, (k - 1) as nat).set_cdr(p[k - 1], Self::upto(p, (k - 1) as nat))
        }
    }

    /// The list `v` reversed in place: the value that heads the reversed
    /// chain and the store that holds it.  A `v` that is not a proper list
    /// leaves the store as it is.
    pub open spec fn reversed(self, v: Value) -> (Result<Value, Failure>, Store) {
        match self.path(v) {
            Some(p) => (Ok(Self::upto(p, p.len())), self.relinked(p, p.len())),
            None => (Err(Failure::NotAProperList), self),
        }
    }
}

/// Whether `c` is one of the first `k` cells of `p`.
pub open spec fn among(p: Seq<nat>, k: nat, c: nat) -> bool {
    exists|j: int| 0 <= j < k && #[trigger] p[j] == c
}

/// `more` in front of the chain `rest`, where there is one.
pub open spec fn prepend(more: Seq<nat>, rest: Option<Seq<nat>>) -> Option<Seq<nat>> {
    match rest {
        Some(p) => Some(more + p),
        None => None,
    }
}

/// A chain found within `limit` cells is found within any larger limit.
pub proof fn lemma_chain_limit(st: Store, v: Value, limit: nat, larger: nat)
    requires
        st.chain(v, limit) is Some,
        limit <= larger,
    ensures
        st.chain(v, larger) == st.chain(v, limit),
    decreases limit,
{
    if let Value::Cons(c) = v {
        lemma_chain_limit(st, st.cells[c as int].1, (limit - 1) as nat, (larger - 1) as nat);
    }
}

/// A chain depends on the cells alone.
pub proof fn lemma_chain_cells(st: Store, other: Store, v: Value, limit: nat)
    requires
        st.cells == other.cells,
    ensures
        st.chain(v, limit) == other.chain(v, limit),
    decreases limit,
{
    if let Value::Cons(c) = v {
        if c < st.cells.len() && limit > 0 {
            lemma_chain_cells(st, other, st.cells[c as int].1, (limit - 1) as nat);
        }
    }
}

/// How a chain hangs together: it starts at its first cell, each cell's cdr
/// names the next, the last cell's cdr is `Nil`, and what follows cell `k` is
/// itself a chain.
pub proof fn lemma_chain_links(st: Store, v: Value, limit: nat)
    requires
        st.chain(v, limit) is Some,
    ensures
        ({
            let p = st.chain(v, limit)->0;
            &&& p.len() <= limit
            &&& v == (if p.len() == 0 {
                Value::Nil
            } else {
                Value::Cons(p[0])
            })
            &&& forall|k: int| 0 <= k < p.len() ==> #[trigger] p[k] < st.cells.len()
            &&& forall|k: int|
                0 <= k < p.len() ==> (#[trigger] st.cells[p[k] as int]).1 == (if k + 1 < p.len() {
                    Value::Cons(p[k + 1])
                } else {
                    Value::Nil
                })
            &&& forall|k: int|
                0 <= k < p.len() ==> #[trigger] st.chain(Value::Cons(p[k]), (limit - k) as nat)
                    == Some(p.skip(k))
        }),
    decreases limit,
{
    let p = st.chain(v, limit)->0;
    if let Value::Cons(c) = v {
        let tail = st.cells[c as int].1;
        let q = st.chain(tail, (limit - 1) as nat)->0;
        lemma_chain_links(st, tail, (limit - 1) as nat);
        assert(p =~= seq![c] + q);
        assert forall|k: int| 0 <= k < p.len() implies (#[trigger] st.cells[p[k] as int]).1 == (if k
            + 1 < p.len() {
            Value::Cons(p[k + 1])
        } else {
            Value::Nil
        }) by {
            if k > 0 {
                assert(p[k] == q[k - 1]);
            }
        }
        assert forall|k: int| 0 <= k < p.len() implies #[trigger] st.chain(
            Value::Cons(p[k]),
            (limit - k) as nat,
        ) == Some(p.skip(k)) by {
            if k == 0 {
                assert(p[0] == c);
                assert(p.skip(0) =~= p);
            } else {
                assert(p[k] == q[k - 1]);
                assert(p.skip(k) =~= q.skip(k - 1));
                assert(st.chain(Value::Cons(q[k - 1]), ((limit - 1) as nat - (k - 1)) as nat)
                    == Some(q.skip(k - 1)));
            }
        }
    }
}

/// A chain visits no cell twice.
pub proof fn lemma_chain_distinct(st: Store, v: Value, limit: nat)
    requires
        st.chain(v, limit) is Some,
    ensures
        st.chain(v, limit)->0.no_duplicates(),
{
    let p = st.chain(v, limit)->0;
    lemma_chain_links(st, v, limit);
    assert forall|i: int, j: int| 0 <= i < p.len() && 0 <= j < p.len() && i != j implies p[i]
        != p[j] by {
        if p[i] == p[j] {
            let (a, b) = if i < j {
                (i, j)
            } else {
                (j, i)
            };
            assert(st.chain(Value::Cons(p[a]), (limit - a) as nat) == Some(p.skip(a)));
            assert(st.chain(Value::Cons(p[b]), (limit - b) as nat) == Some(p.skip(b)));
            lemma_chain_limit(st, Value::Cons(p[b]), (limit - b) as nat, (limit - a) as nat);
            assert(p.skip(a).len() != p.skip(b).len());
        }
    }
}

/// Relinking a prefix of a chain touches the cdrs of that prefix and nothing
/// else.
pub proof fn lemma_relinked(st: Store, p: Seq<nat>, k: nat)
    requires
        k <= p.len(),
        p.no_duplicates(),
        forall|j: int| 0 <= j < p.len() ==> #[trigger] p[j] < st.cells.len(),
    ensures
        st.relinked(p, k).frames == st.frames,
        st.relinked(p, k).cells.len() == st.cells.len(),
        forall|j: int|
            0 <= j < k ==> #[trigger] st.relinked(p, k).cells[p[j] as int] == (
                st.cells[p[j] as int].0,
                Store::upto(p, j as nat),
            ),
        forall|i: int|
            0 <= i < st.cells.len() && !among(p, k, i as nat) ==> #[trigger] st.relinked(
                p,
                k,
            ).cells[i] == st.cells[i],
    decreases k,
{
    if k > 0 {
        let before = st.relinked(p, (k - 1) as nat);
        let c = p[k - 1];
        lemma_relinked(st, p, (k - 1) as nat);
        assert(!among(p, (k - 1) as nat, c));
        assert(before.cells[c as int] == st.cells[c as int]);
        assert forall|j: int| 0 <= j < k implies #[trigger] st.relinked(p, k).cells[p[j] as int]
            == (st.cells[p[j] as int].0, Store::upto(p, j as nat)) by {
            if j < k - 1 {
                assert(p[j] != c);
            }
        }
        assert forall|i: int|
            0 <= i < st.cells.len() && !among(p, k, i as nat) implies #[trigger] st.relinked(
            p,
            k,
        ).cells[i] == st.cells[i] by {
            assert(p[k - 1] != i as nat);
            assert(!among(p, (k - 1) as nat, i as nat));
        }
    }
}

impl Data {
    /// The first slot of a pair; `Nil` for `Nil`.
    pub fn car(&self, heap: &Heap) -> (r: Result<Data, Error>)
        ensures
            outcome(r) == heap@.car(self@),
    {
        match self {
            Data::Nil => Ok(Data::Nil),
            Data::Cons(c) => if *c < heap.cell_count() {
                Ok(heap.first(*c).clone())
            } else {
                Err(Error::NotAPair)
            },
            _ => Err(Error::NotAPair),
        }
    }

    /// The second slot of a pair; `Nil` for `Nil`.
    pub fn cdr(&self, heap: &Heap) -> (r: Result<Data, Error>)
        ensures
            outcome(r) == heap@.cdr(self@),
    {
        match self {
            Data::Nil => Ok(Data::Nil),
            Data::Cons(c) => if *c < heap.cell_count() {
                Ok(heap.rest(*c).clone())
            } else {
                Err(Error::NotAPair)
            },
            _ => Err(Error::NotAPair),
        }
    }

    /// The car of the cdr.
    pub fn cadr(&self, heap: &Heap) -> (r: Result<Data, Error>)
        ensures
            outcome(r) == heap@.cadr(self@),
    {
        match self.cdr(heap) {
            Ok(tail) => tail.car(heap),
            Err(e) => Err(e),
        }
    }

    /// A new pair of `self` and `cdr`.
    pub fn cons(self, cdr: Data, heap: &mut Heap) -> (pair: Data)
        ensures
            pair@ == Value::Cons(old(heap)@.cells.len()),
            final(heap)@ == old(heap)@.add_cell(self@, cdr@),
    {
        Data::Cons(heap.add_cell(self, cdr))
    }

    /// The number of elements of a proper list.
    pub fn len(&self, heap: &Heap) -> (r: Result<usize, Error>)
        ensures
            match heap@.len(self@) {
                Ok(n) => r == Ok::<usize, Error>(n as usize) && n <= usize::MAX,
                Err(_) => r matches Err(Error::NotAProperList),
            },
    {
        let limit = heap.cell_count();
        let mut cur: &Data = self;
        let mut n: usize = 0;
        let ghost mut seen: Seq<nat> = Seq::empty();
        loop
            invariant
                limit == heap@.cells.len(),
                n <= limit,
                seen.len() == n,
                heap@.path(self@) == prepend(seen, heap@.chain(cur@, (limit - n) as nat)),
            decreases limit - n,
        {
            match cur {
                Data::Nil => {
                    assert(seen + Seq::<nat>::empty() =~= seen);
                    return Ok(n);
                },
                Data::Cons(c) => {
                    if *c < limit && n < limit {
                        proof {
                            let q = heap@.chain(heap@.cells[*c as int].1, (limit - n - 1) as nat);
                            if let Some(p) = q {
                                assert(seen + (seq![*c as nat] + p) =~= seen.push(*c as nat) + p);
                            }
                            seen = seen.push(*c as nat);
                        }
                        cur = heap.rest(*c);
                        n = n + 1;
                    } else {
                        return Err(Error::NotAProperList);
                    }
                },
                _ => {
                    return Err(Error::NotAProperList);
                },
            }
        }
    }

    /// The last element of a proper list that has one.
    pub fn last(&self, heap: &Heap) -> (r: Result<Data, Error>)
        ensures
            outcome(r) == heap@.last(self@),
    {
        let n = match self.len(heap) {
            Ok(n) => n,
            Err(_) => {
                return Err(Error::NotAProperList);
            },
        };
        if n == 0 {
            return Err(Error::NotAProperList);
        }
        let ghost p = heap@.path(self@)->0;
        proof {
            lemma_chain_links(heap@, self@, heap@.cells.len());
        }
        let mut cur: &Data = self;
        let mut k: usize = 0;
        while k + 1 < n
            invariant
                k < n,
                n == p.len(),
                cur@ == Value::Cons(p[k as int]),
                forall|j: int| 0 <= j < p.len() ==> #[trigger] p[j] < heap@.cells.len(),
                forall|j: int|
                    0 <= j < p.len() ==> (#[trigger] heap@.cells[p[j] as int]).1 == (if j + 1
                        < p.len() {
                        Value::Cons(p[j + 1])
                    } else {
                        Value::Nil
                    }),
            decreases n - k,
        {
            match cur {
                Data::Cons(c) => {
                    assert(heap@.cells[p[k as int] as int].1 == Value::Cons(p[k + 1]));
                    cur = heap.rest(*c);
                },
                _ => {
                    return Err(Error::NotAProperList);
                },
            }
            k = k + 1;
        }
        match cur {
            Data::Cons(c) => Ok(heap.first(*c).clone()),
            _ => Err(Error::NotAProperList),
        }
    }

    /// Reverses a proper list in place: each cell of the chain gets its
    /// predecessor as cdr, no cell is made.  The value returned heads the
    /// reversed chain.
    pub fn nreverse(self, heap: &mut Heap) -> (r: Result<Data, Error>)
        ensures
            outcome(r) == old(heap)@.reversed(self@).0,
            final(heap)@ == old(heap)@.reversed(self@).1,
    {
        let n = match self.len(heap) {
            Ok(n) => n,
            Err(_) => {
                return Err(Error::NotAProperList);
            },
        };
        let ghost st = heap@;
        let ghost p = st.path(self@)->0;
        proof {
            lemma_chain_links(st, self@, st.cells.len());
            lemma_chain_distinct(st, self@, st.cells.len());
        }
        let mut curr = self;
        let mut prv = Data::Nil;
        let mut k: usize = 0;
        while k < n
            invariant
                k <= n,
                n == p.len(),
                p.no_duplicates(),
                forall|j: int| 0 <= j < p.len() ==> #[trigger] p[j] < st.cells.len(),
                forall|j: int|
                    0 <= j < p.len() ==> (#[trigger] st.cells[p[j] as int]).1 == (if j + 1
                        < p.len() {
                        Value::Cons(p[j + 1])
                    } else {
                        Value::Nil
                    }),
                heap@ == st.relinked(p, k as nat),
                curr@ == (if k < n {
                    Value::Cons(p[k as int])
                } else {
                    Value::Nil
                }),
                prv@ == Store::upto(p, k as nat),
            decreases n - k,
        {
            proof {
                lemma_relinked(st, p, k as nat);
                assert(!among(p, k as nat, p[k as int]));
                assert(heap@.cells[p[k as int] as int] == st.cells[p[k as int] as int]);
            }
            match curr {
                Data::Cons(c) => {
                    let next = heap.replace_rest(c, prv);
                    prv = Data::Cons(c);
                    curr = next;
                },
                _ => {
                    return Err(Error::NotAProperList);
                },
            }
            k = k + 1;
        }
        Ok(prv)
    }
}

} // verus!
