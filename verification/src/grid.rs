//! The sparse grid: a hash map from the key of each tracked coordinate to its state.

use std::collections::HashMap;
use vstd::prelude::*;
use vstd::std_specs::iter::IteratorSpec;
use crate::coord::{
    decode, encode, key_of, lemma_key_injective, lemma_key_round_trip, representable, Bounds, Cell,
    Coord,
};
use crate::rule::{
    alive_at, flips, live, live_neighbours, next_generation, next_state, next_state_of, Grid,
};

verus! {

/// One entry of the batch that a generation applies: a tracked cell and its new state.
#[derive(Clone, Copy, Debug, PartialEq, Eq, Structural)]
pub struct Change {
    pub cell: Cell,
    pub alive: bool,
}

/// The grid of tracked cells. A coordinate without an entry is dead.
pub struct Cells {
    map: HashMap<u64, bool>,
}

impl View for Cells {
    type V = Grid;

    /// The tracked coordinates and their states.
    closed spec fn view(&self) -> Grid {
        Map::new(
            |c: Coord| representable(c) && self.map@.contains_key(key_of(c) as u64),
            |c: Coord| self.map@[key_of(c) as u64],
        )
    }
}

impl Cells {
    /// Every tracked coordinate fits the machine type.
    pub proof fn lemma_tracked_representable(&self)
        ensures
            forall|c: Coord| #[trigger] self@.contains_key(c) ==> representable(c),
    {
    }

    /// A grid that tracks no cell.
    pub fn new() -> (cells: Cells)
        ensures
            cells@ == Map::<Coord, bool>::empty(),
    {
        let cells = Cells { map: HashMap::new() };
        assert(cells@ =~= Map::<Coord, bool>::empty());
        cells
    }

    /// A grid that tracks exactly the coordinates inside `bounds`, all of them dead.
    pub fn dead_within(bounds: Bounds) -> (cells: Cells)
        ensures
            cells@ == Map::<Coord, bool>::new(|c: Coord| bounds.contains(c), |c: Coord| false),
    {
        let mut cells = Cells::new();
        let mut x: i32 = bounds.x_min;
        while x < bounds.x_max
            invariant
                bounds.x_min <= x,
                cells@ =~= Map::<Coord, bool>::new(
                    |c: Coord| bounds.contains(c) && c.0 < x,
                    |c: Coord| false,
                ),
            decreases bounds.x_max - x,
        {
            let mut y: i32 = bounds.y_min;
            while y < bounds.y_max
                invariant
                    bounds.x_min <= x < bounds.x_max,
                    bounds.y_min <= y,
                    cells@ =~= Map::<Coord, bool>::new(
                        |c: Coord| bounds.contains(c) && (c.0 < x || (c.0 == x && c.1 < y)),
                        |c: Coord| false,
                    ),
                decreases bounds.y_max - y,
            {
                cells.set_cell(x, y, false);
                y += 1;
            }
            x += 1;
        }
        cells
    }

    /// Tracks `(x, y)` with the given state, replacing any state it had.
    pub fn set_cell(&mut self, x: i32, y: i32, alive: bool)
        ensures
            final(self)@ == old(self)@.insert((x as int, y as int), alive),
    {
        let k = encode(x, y);
        self.map.insert(k, alive);
        proof {
            let target: Coord = (x as int, y as int);
            lemma_key_round_trip(target);
            assert forall|c: Coord| representable(c) && c != target implies key_of(c) as u64
                != k by {
                lemma_key_round_trip(c);
                if key_of(c) == key_of(target) {
                    lemma_key_injective(c, target);
                }
            }
            assert(self@ =~= old(self)@.insert(target, alive));
        }
    }

    /// The stored state of `(x, y)`, or `None` where the grid does not track it.
    pub fn get(&self, x: i32, y: i32) -> (state: Option<bool>)
        ensures
            state == if self@.contains_key((x as int, y as int)) {
                Some(self@[(x as int, y as int)])
            } else {
                None
            },
    {
        let k = encode(x, y);
        proof {
            lemma_key_round_trip((x as int, y as int));
        }
        match self.map.get(&k) {
            Some(v) => Some(*v),
            None => None,
        }
    }

    /// The keys of all tracked cells, each once, in no particular order.
    fn keys(&self) -> (keys: Vec<u64>)
        ensures
            keys@.no_duplicates(),
            forall|k: u64| keys@.contains(k) <==> self.map@.contains_key(k),
    {
        let mut keys: Vec<u64> = Vec::new();
        let ghost all: Seq<u64> = self.map.keys().remaining().unref();
        for k in it: self.map.keys()
            invariant
                it.seq().unref() == all,
                all.no_duplicates(),
                all.to_set() == self.map@.dom(),
                keys@ == all.take(it.index()),
        {
            keys.push(*k);
        }
        proof {
            assert(keys@ =~= all);
            assert forall|k: u64| keys@.contains(k) <==> self.map@.contains_key(k) by {
                assert(keys@.to_set().contains(k) <==> keys@.contains(k));
                assert(self.map@.dom().contains(k) <==> self.map@.contains_key(k));
            }
        }
        keys
    }

    /// Whether `(x, y)` is alive. An untracked coordinate is dead.
    pub fn is_alive(&self, x: i32, y: i32) -> (alive: bool)
        ensures
            alive == alive_at(self@, (x as int, y as int)),
    {
        match self.get(x, y) {
            Some(v) => v,
            None => false,
        }
    }

    /// All tracked cells, each once, in no particular order.
    pub fn coordinates(&self) -> (cells: Vec<Cell>)
        ensures
            forall|i: int, j: int| 0 <= i < j < cells.len() ==> cells[i]@ != cells[j]@,
            forall|i: int| 0 <= i < cells.len() ==> self@.contains_key(#[trigger] cells[i]@),
            forall|c: Coord|
                self@.contains_key(c) ==> exists|i: int|
                    0 <= i < cells.len() && #[trigger] cells[i]@ == c,
    {
        let keys = self.keys();
        let mut cells: Vec<Cell> = Vec::new();
        let mut i: usize = 0;
        while i < keys.len()
            invariant
                i <= keys.len(),
                cells.len() == i,
                forall|j: int| 0 <= j < i ==> key_of(#[trigger] cells[j]@) == keys[j],
            decreases keys.len() - i,
        {
            cells.push(decode(keys[i]));
            i += 1;
        }
        proof {
            assert forall|a: int, b: int| 0 <= a < b < cells.len() implies cells[a]@
                != cells[b]@ by {
                assert(keys@[a] != keys@[b]);
            }
            assert forall|a: int| 0 <= a < cells.len() implies self@.contains_key(
                #[trigger] cells[a]@,
            ) by {
                assert(keys@.contains(keys@[a]));
            }
            assert forall|c: Coord| self@.contains_key(c) implies exists|a: int|
                0 <= a < cells.len() && #[trigger] cells[a]@ == c by {
                lemma_key_round_trip(c);
                let k = key_of(c) as u64;
                assert(keys@.contains(k));
                let a = choose|a: int| 0 <= a < keys@.len() && keys@[a] == k;
                lemma_key_injective(cells[a]@, c);
            }
        }
        cells
    }

    /// `1` where the cell at `(x, y)` is alive, `0` where it is dead, untracked or
    /// outside the representable coordinates.
    fn live_at(&self, x: i64, y: i64) -> (n: u8)
        ensures
            n == live(self@, (x as int, y as int)),
    {
        if x < -0x8000_0000i64 || x > 0x7fff_ffffi64 || y < -0x8000_0000i64 || y > 0x7fff_ffffi64 {
            0
        } else if self.is_alive(x as i32, y as i32) {
            1
        } else {
            0
        }
    }

    /// The number of live cells among the eight cells adjacent to `(x, y)`. A neighbour
    /// that the grid does not track counts as dead.
    pub fn live_neighbours(&self, x: i32, y: i32) -> (n: u8)
        ensures
            n == live_neighbours(self@, (x as int, y as int)),
            n <= 8,
    {
        let cx: i64 = x as i64;
        let cy: i64 = y as i64;
        let mut n: u8 = self.live_at(cx + 1, cy + 1);
        n = n + self.live_at(cx + 1, cy);
        n = n + self.live_at(cx + 1, cy - 1);
        n = n + self.live_at(cx, cy - 1);
        n = n + self.live_at(cx, cy + 1);
        n = n + self.live_at(cx - 1, cy - 1);
        n = n + self.live_at(cx - 1, cy + 1);
        n = n + self.live_at(cx - 1, cy);
        n
    }

    /// The cells that one generation flips, each once and with its new state, in no
    /// particular order. Every entry is computed from the grid as it stands.
    pub fn changes(&self) -> (changes: Vec<Change>)
        ensures
            forall|i: int|
                0 <= i < changes.len() ==> flips(self@, #[trigger] changes[i].cell@)
                    && changes[i].alive == next_state(self@, changes[i].cell@),
            forall|i: int, j: int|
                0 <= i < j < changes.len() ==> changes[i].cell@ != changes[j].cell@,
            forall|c: Coord|
                flips(self@, c) ==> exists|i: int|
                    0 <= i < changes.len() && #[trigger] changes[i].cell@ == c,
    {
        let known = self.coordinates();
        let mut changes: Vec<Change> = Vec::new();
        let ghost mut origin: Seq<int> = Seq::empty();
        let mut i: usize = 0;
        while i < known.len()
            invariant
                i <= known.len(),
                origin.len() == changes.len(),
                forall|j: int| 0 <= j < known.len() ==> self@.contains_key(#[trigger] known[j]@),
                forall|a: int, b: int| 0 <= a < b < known.len() ==> known[a]@ != known[b]@,
                forall|m: int|
                    0 <= m < changes.len() ==> 0 <= #[trigger] origin[m] < i
                        && changes[m].cell == known[origin[m]],
                forall|m: int, n: int| 0 <= m < n < changes.len() ==> origin[m] < origin[n],
                forall|m: int|
                    0 <= m < changes.len() ==> flips(self@, #[trigger] changes[m].cell@)
                        && changes[m].alive == next_state(self@, changes[m].cell@),
                forall|j: int|
                    0 <= j < i && flips(self@, #[trigger] known[j]@) ==> exists|m: int|
                        0 <= m < changes.len() && #[trigger] changes[m].cell@ == known[j]@,
            decreases known.len() - i,
        {
            let cell = known[i];
            let alive = self.is_alive(cell.x, cell.y);
            let next = next_state_of(alive, self.live_neighbours(cell.x, cell.y));
            if next != alive {
                let ghost before = changes@;
                changes.push(Change { cell, alive: next });
                proof {
                    origin = origin.push(i as int);
                    assert forall|j: int|
                        0 <= j < i + 1 && flips(self@, #[trigger] known[j]@) implies exists|
                        m: int,
                    | 0 <= m < changes.len() && #[trigger] changes[m].cell@ == known[j]@ by {
                        if j < i {
                            let m = choose|m: int|
                                0 <= m < before.len() && #[trigger] before[m].cell@ == known[j]@;
                            assert(changes[m].cell@ == known[j]@);
                        } else {
                            assert(changes[changes.len() - 1].cell@ == known[j]@);
                        }
                    }
                }
            }
            i += 1;
        }
        proof {
            assert forall|c: Coord| flips(self@, c) implies exists|m: int|
                0 <= m < changes.len() && #[trigger] changes[m].cell@ == c by {
                let j = choose|j: int| 0 <= j < known.len() && #[trigger] known[j]@ == c;
                assert(flips(self@, known[j]@));
            }
            assert forall|m: int, n: int| 0 <= m < n < changes.len() implies changes[m].cell@
                != changes[n].cell@ by {
                assert(origin[m] < origin[n]);
            }
        }
        changes
    }

    /// Advances the grid by one generation. The rule is evaluated on every tracked cell
    /// against the grid as it was before the call, and all flips are then applied at once.
    pub fn advance(&mut self)
        ensures
            final(self)@ == next_generation(old(self)@),
    {
        let changes = self.changes();
        let mut i: usize = 0;
        while i < changes.len()
            invariant
                i <= changes.len(),
                self@.dom() =~= old(self)@.dom(),
                forall|m: int|
                    0 <= m < changes.len() ==> flips(old(self)@, #[trigger] changes[m].cell@)
                        && changes[m].alive == next_state(old(self)@, changes[m].cell@),
                forall|m: int|
                    0 <= m < i ==> self@[#[trigger] changes[m].cell@] == changes[m].alive,
                forall|c: Coord|
                    self@.contains_key(c) && (forall|m: int|
                        0 <= m < i ==> #[trigger] changes[m].cell@ != c) ==> self@[c] == old(
                        self,
                    )@[c],
            decreases changes.len() - i,
        {
            let change = changes[i];
            let ghost before = self@;
            self.set_cell(change.cell.x, change.cell.y, change.alive);
            proof {
                assert(flips(old(self)@, changes[i as int].cell@));
                assert(self@.dom() =~= old(self)@.dom());
                assert forall|m: int| 0 <= m < i + 1 implies self@[#[trigger] changes[m].cell@]
                    == changes[m].alive by {
                    if m < i && changes[m].cell@ == change.cell@ {
                        assert(changes[m].alive == next_state(old(self)@, changes[m].cell@));
                    }
                }
                assert forall|c: Coord|
                    self@.contains_key(c) && (forall|m: int|
                        0 <= m < i + 1 ==> #[trigger] changes[m].cell@ != c) implies self@[c]
                    == old(self)@[c] by {
                    assert(changes[i as int].cell@ != c);
                    assert(forall|m: int| 0 <= m < i ==> #[trigger] changes[m].cell@ != c);
                    assert(before.contains_key(c));
                }
            }
            i += 1;
        }
        proof {
            let old_grid = old(self)@;
            assert forall|c: Coord| self@.contains_key(c) implies self@[c] == next_state(
                old_grid,
                c,
            ) by {
                if flips(old_grid, c) {
                    let m = choose|m: int| 0 <= m < changes.len() && #[trigger] changes[m].cell@ == c;
                    assert(self@[changes[m].cell@] == changes[m].alive);
                } else {
                    assert forall|m: int| 0 <= m < changes.len() implies #[trigger] changes[m].cell@
                        != c by {
                        assert(flips(old_grid, changes[m].cell@));
                    }
                }
            }
            assert(self@ =~= next_generation(old_grid));
        }
    }
}

} // verus!
