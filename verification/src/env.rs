//! Environments: frames of bindings, each opened in another.

use vstd::prelude::*;
use vstd::string::StringExecFns;
use crate::error::{outcome, Error, Failure};
use crate::heap::{Heap, Store};
use crate::value::{Data, Env, Value};

verus! {

/// The names of the primitives, bound in every root frame.
pub open spec fn primitive_names() -> Seq<Seq<char>> {
    seq![
        "+"@,
        "*"@,
        "exit"@,
        "<"@,
        ">"@,
        "not"@,
        "-"@,
        "/"@,
        "cons"@,
        "car"@,
        "cdr"@,
        "length"@,
    ]
}

impl Store {
    /// What `name` is bound to as seen from frame `env`: the binding of the
    /// nearest frame that has one, on the way from `env` through the parents
    /// to the root.
    pub open spec fn lookup(self, env: nat, name: Seq<char>) -> Option<Value>
        decreases env,
    {
        if env < self.frames.len() {
            let scope = self.frames[env as int];
            if scope.vars.contains_key(name) {
                Some(scope.vars[name])
            } else {
                match scope.parent {
                    Some(p) => if p < env {
                        self.lookup(p, name)
                    } else {
                        None
                    },
                    None => None,
                }
            }
        } else {
            None
        }
    }

    /// The store in which frame `env` binds `name` to `v`, over any earlier
    /// binding of `name` there.  No other frame changes.
    pub open spec fn define(self, env: nat, name: Seq<char>, v: Value) -> Store {
        if env < self.frames.len() {
            self.bind(env, name, v)
        } else {
            self
        }
    }

    /// The store in which frame `env` binds the first `k` of `names`, each to
    /// the primitive of that name.
    pub open spec fn with_primitives(self, env: nat, names: Seq<Seq<char>>, k: nat) -> Store
        decreases k,
    {
        if k == 0 {
            self
        } else {
            self.with_primitives(env, names, (k - 1) as nat).define(
                env,
                names[k - 1],
                Value::PrimitiveFn(names[k - 1]),
            )
        }
    }
}

impl Env {
    /// A new, empty frame opened in `parent`.
    pub fn new(parent: Env, heap: &mut Heap) -> (env: Env)
        ensures
            env@ == old(heap)@.frames.len(),
            final(heap)@ == old(heap)@.open_frame(Some(parent@)),
    {
        heap.open_frame(Some(parent))
    }

    /// A new frame without a parent that binds every primitive's name to that
    /// primitive.
    pub fn new_root(heap: &mut Heap) -> (env: Env)
        ensures
            env@ == old(heap)@.frames.len(),
            final(heap)@ == old(heap)@.open_frame(None).with_primitives(
                env@,
                primitive_names(),
                primitive_names().len(),
            ),
    {
        let env = heap.open_frame(None);
        env.init_env(heap);
        env
    }

    /// The value that `symbol` is bound to in this frame or, failing that, in
    /// the nearest enclosing frame that binds it.
    pub fn lookup(&self, symbol: &String, heap: &Heap) -> (r: Result<Data, Error>)
        ensures
            outcome(r) == (match heap@.lookup(self@, symbol@) {
                Some(v) => Ok::<Value, Failure>(v),
                None => Err::<Value, Failure>(Failure::UnboundSymbol(symbol@)),
            }),
    {
        let mut cur: usize = self.0;
        loop
            invariant
                heap@.lookup(self@, symbol@) == heap@.lookup(cur as nat, symbol@),
            decreases cur,
        {
            if cur >= heap.frame_count() {
                return Err(Error::UnboundSymbol(symbol.clone()));
            }
            match heap.binding(Env(cur), symbol.as_str()) {
                Some(d) => {
                    return Ok(d.clone());
                },
                None => {},
            }
            match heap.parent(Env(cur)) {
                Some(p) => {
                    if p.0 < cur {
                        cur = p.0;
                    } else {
                        return Err(Error::UnboundSymbol(symbol.clone()));
                    }
                },
                None => {
                    return Err(Error::UnboundSymbol(symbol.clone()));
                },
            }
        }
    }

    /// Binds `symbol` to `d` in this frame, over any earlier binding there.
    pub fn insert(&self, symbol: String, d: Data, heap: &mut Heap)
        ensures
            final(heap)@ == old(heap)@.define(self@, symbol@, d@),
    {
        if self.0 < heap.frame_count() {
            heap.bind(*self, symbol, d);
        }
    }

    /// Binds `name` to the primitive of that name in this frame.
    pub fn add_primitive(&self, name: &str, heap: &mut Heap)
        ensures
            final(heap)@ == old(heap)@.define(self@, name@, Value::PrimitiveFn(name@)),
    {
        self.insert(String::from_str(name), Data::PrimitiveFn(String::from_str(name)), heap);
    }

    /// Binds every primitive's name in this frame.
    pub fn init_env(&self, heap: &mut Heap)
        ensures
            final(heap)@ == old(heap)@.with_primitives(
                self@,
                primitive_names(),
                primitive_names().len(),
            ),
    {
        let names: [&str; 12] = [
            "+",
            "*",
            "exit",
            "<",
            ">",
            "not",
            "-",
            "/",
            "cons",
            "car",
            "cdr",
            "length",
        ];
        let mut k: usize = 0;
        while k < 12
            invariant
                k <= 12,
                primitive_names().len() == 12,
                forall|j: int| 0 <= j < 12 ==> names@[j]@ == #[trigger] primitive_names()[j],
                heap@ == old(heap)@.with_primitives(self@, primitive_names(), k as nat),
            decreases 12 - k,
        {
            self.add_primitive(names[k], heap);
            k = k + 1;
        }
    }
}

} // verus!
