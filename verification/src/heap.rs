//! The arena that holds every pair cell and every environment frame.
//!
//! A cell or a frame is named by its position and is never removed, so a
//! handle stays good for the life of the heap and two values naming one cell
//! see each other's changes.

use vstd::prelude::*;
use vstd::hash_map::StringHashMap;
use crate::value::{Data, Env, Value};

verus! {

/// One environment frame: its own bindings and the frame it was opened in.
pub struct Scope {
    pub vars: Map<Seq<char>, Value>,
    pub parent: Option<nat>,
}

/// The mathematical content of a [`Heap`]: the pair cells, each a `(car,
/// cdr)`, and the frames, both in order of creation.
pub struct Store {
    pub cells: Seq<(Value, Value)>,
    pub frames: Seq<Scope>,
}

impl Store {
    /// The store with no cell and no frame.
    pub open spec fn empty() -> Store {
        Store { cells: Seq::empty(), frames: Seq::empty() }
    }

    /// The store with one more cell, holding `(car, cdr)`.
    pub open spec fn add_cell(self, car: Value, cdr: Value) -> Store {
        Store { cells: self.cells.push((car, cdr)), frames: self.frames }
    }

    /// The store in which cell `cell` has the cdr `cdr`.
    pub open spec fn set_cdr(self, cell: nat, cdr: Value) -> Store {
        Store {
            cells: self.cells.update(cell as int, (self.cells[cell as int].0, cdr)),
            frames: self.frames,
        }
    }

    /// The store with one more frame, empty, opened in `parent`.
    pub open spec fn open_frame(self, parent: Option<nat>) -> Store {
        Store {
            cells: self.cells,
            frames: self.frames.push(Scope { vars: Map::empty(), parent }),
        }
    }

    /// The store in which frame `env` binds `name` to `v`.
    pub open spec fn bind(self, env: nat, name: Seq<char>, v: Value) -> Store {
        Store {
            cells: self.cells,
            frames: self.frames.update(
                env as int,
                Scope {
                    vars: self.frames[env as int].vars.insert(name, v),
                    parent: self.frames[env as int].parent,
                },
            ),
        }
    }
}

struct Frame {
    table: StringHashMap<Data>,
    parent: Option<Env>,
}

impl Frame {
    spec fn scope(self) -> Scope {
        Scope {
            vars: self.table@.map_values(|d: Data| d@),
            parent: match self.parent {
                Some(e) => Some(e@),
                None => None,
            },
        }
    }
}

/// The arena of pair cells and environment frames.
pub struct Heap {
    cells: Vec<(Data, Data)>,
    frames: Vec<Frame>,
}

impl View for Heap {
    type V = Store;

    closed spec fn view(&self) -> Store {
        Store {
            cells: Seq::new(self.cells@.len(), |i: int| (self.cells@[i].0@, self.cells@[i].1@)),
            frames: Seq::new(self.frames@.len(), |i: int| self.frames@[i].scope()),
        }
    }
}

impl Heap {
    /// An empty heap.
    pub fn new() -> (heap: Heap)
        ensures
            heap@ == Store::empty(),
    {
        let heap = Heap { cells: Vec::new(), frames: Vec::new() };
        assert(heap@.cells =~= Seq::empty());
        assert(heap@.frames =~= Seq::empty());
        heap
    }

    /// The number of cells.
    pub fn cell_count(&self) -> (n: usize)
        ensures
            n == self@.cells.len(),
    {
        self.cells.len()
    }

    /// The number of frames.
    pub fn frame_count(&self) -> (n: usize)
        ensures
            n == self@.frames.len(),
    {
        self.frames.len()
    }

    /// The car of cell `cell`.
    pub(crate) fn first(&self, cell: usize) -> (d: &Data)
        requires
            cell < self@.cells.len(),
        ensures
            d@ == self@.cells[cell as int].0,
    {
        &self.cells[cell].0
    }

    /// The cdr of cell `cell`.
    pub(crate) fn rest(&self, cell: usize) -> (d: &Data)
        requires
            cell < self@.cells.len(),
        ensures
            d@ == self@.cells[cell as int].1,
    {
        &self.cells[cell].1
    }

    /// Adds a cell holding `(car, cdr)` and returns its position.
    pub(crate) fn add_cell(&mut self, car: Data, cdr: Data) -> (cell: usize)
        ensures
            cell == old(self)@.cells.len(),
            final(self)@ == old(self)@.add_cell(car@, cdr@),
    {
        let cell = self.cells.len();
        self.cells.push((car, cdr));
        assert(self@.cells =~= old(self)@.cells.push((car@, cdr@)));
        assert(self@.frames =~= old(self)@.frames);
        cell
    }

    /// Puts `cdr` into cell `cell` and hands back the cdr it held.
    pub(crate) fn replace_rest(&mut self, cell: usize, cdr: Data) -> (was: Data)
        requires
            cell < old(self)@.cells.len(),
        ensures
            was@ == old(self)@.cells[cell as int].1,
            final(self)@ == old(self)@.set_cdr(cell as nat, cdr@),
    {
        let mut held = cdr;
        std::mem::swap(&mut self.cells[cell].1, &mut held);
        assert(self@.cells =~= old(self)@.set_cdr(cell as nat, cdr@).cells);
        assert(self@.frames =~= old(self)@.frames);
        held
    }

    /// Adds an empty frame opened in `parent` and returns its handle.
    pub(crate) fn open_frame(&mut self, parent: Option<Env>) -> (env: Env)
        ensures
            env@ == old(self)@.frames.len(),
            final(self)@ == old(self)@.open_frame(
                match parent {
                    Some(e) => Some(e@),
                    None => None,
                },
            ),
    {
        let env = Env(self.frames.len());
        let frame = Frame { table: StringHashMap::new(), parent };
        assert(frame.scope().vars =~= Map::empty());
        self.frames.push(frame);
        assert(self@.frames =~= old(self)@.open_frame(
            match parent {
                Some(e) => Some(e@),
                None => None,
            },
        ).frames);
        assert(self@.cells =~= old(self)@.cells);
        env
    }

    /// What frame `env` itself binds `name` to, if anything.
    pub(crate) fn binding(&self, env: Env, name: &str) -> (found: Option<&Data>)
        requires
            env@ < self@.frames.len(),
        ensures
            match found {
                Some(d) => self@.frames[env@ as int].vars.contains_key(name@)
                    && d@ == self@.frames[env@ as int].vars[name@],
                None => !self@.frames[env@ as int].vars.contains_key(name@),
            },
    {
        self.frames[env.0].table.get(name)
    }

    /// The frame that frame `env` was opened in.
    pub(crate) fn parent(&self, env: Env) -> (p: Option<Env>)
        requires
            env@ < self@.frames.len(),
        ensures
            match p {
                Some(e) => self@.frames[env@ as int].parent == Some(e@),
                None => self@.frames[env@ as int].parent is None,
            },
    {
        self.frames[env.0].parent
    }

    /// Binds `name` to `d` in frame `env`, over any earlier binding.
    pub(crate) fn bind(&mut self, env: Env, name: String, d: Data)
        requires
            env@ < old(self)@.frames.len(),
        ensures
            final(self)@ == old(self)@.bind(env@, name@, d@),
    {
        let ghost before = self.frames@[env@ as int].scope();
        self.frames[env.0].table.insert(name, d);
        assert(self.frames@[env@ as int].scope().vars =~= before.vars.insert(name@, d@));
        assert(self@.frames =~= old(self)@.bind(env@, name@, d@).frames);
        assert(self@.cells =~= old(self)@.cells);
    }
}

} // verus!
