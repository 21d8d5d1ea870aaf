//! The transition rule, stated over a grid as a mathematical map.

use vstd::prelude::*;
use crate::coord::Coord;

verus! {

/// A grid as the contracts speak of it: tracked coordinates and their state.
pub type Grid = Map<Coord, bool>;

/// A cell is alive when the grid tracks it and marks it live; an untracked cell is dead.
pub open spec fn alive_at(g: Grid, c: Coord) -> bool {
    g.contains_key(c) && g[c]
}

/// `1` for a live cell, `0` for a dead or untracked one.
pub open spec fn live(g: Grid, c: Coord) -> nat {
    if alive_at(g, c) {
        1
    } else {
        0
    }
}

/// The number of live cells among the eight cells adjacent to `c`.
pub open spec fn live_neighbours(g: Grid, c: Coord) -> nat {
    live(g, (c.0 + 1, c.1 + 1)) + live(g, (c.0 + 1, c.1)) + live(g, (c.0 + 1, c.1 - 1)) + live(
        g,
        (c.0, c.1 - 1),
    ) + live(g, (c.0, c.1 + 1)) + live(g, (c.0 - 1, c.1 - 1)) + live(g, (c.0 - 1, c.1 + 1)) + live(
        g,
        (c.0 - 1, c.1),
    )
}

/// The state of a cell after one generation, given its state and live neighbour count:
/// a live cell with fewer than two or more than three live neighbours dies, a dead cell
/// with exactly three is born, and every other cell keeps its state.
pub open spec fn rule(alive: bool, neighbours: nat) -> bool {
    if alive && (neighbours < 2 || neighbours > 3) {
        false
    } else if !alive && neighbours == 3 {
        true
    } else {
        alive
    }
}

/// The state of tracked cell `c` after one generation of `g`.
pub open spec fn next_state(g: Grid, c: Coord) -> bool {
    rule(g[c], live_neighbours(g, c))
}

/// Whether one generation flips tracked cell `c`.
pub open spec fn flips(g: Grid, c: Coord) -> bool {
    g.contains_key(c) && next_state(g, c) != g[c]
}

/// The grid after one generation: the same tracked coordinates, each with the state the
/// rule gives it from `g` itself. Untracked coordinates stay untracked.
pub open spec fn next_generation(g: Grid) -> Grid {
    Map::new(|c: Coord| g.contains_key(c), |c: Coord| next_state(g, c))
}

/// Applies the rule to one cell.
pub fn next_state_of(alive: bool, neighbours: u8) -> (next: bool)
    ensures
        next == rule(alive, neighbours as nat),
{
    if alive {
        neighbours == 2 || neighbours == 3
    } else {
        neighbours == 3
    }
}

/// A live cell with fewer than two live neighbours is dead after one generation.
pub proof fn lemma_underpopulation(g: Grid, c: Coord)
    requires
        alive_at(g, c),
        live_neighbours(g, c) < 2,
    ensures
        !alive_at(next_generation(g), c),
{
}

/// A live cell with more than three live neighbours is dead after one generation.
pub proof fn lemma_overpopulation(g: Grid, c: Coord)
    requires
        alive_at(g, c),
        live_neighbours(g, c) > 3,
    ensures
        !alive_at(next_generation(g), c),
{
}

/// A live cell with two or three live neighbours is alive after one generation.
pub proof fn lemma_survival(g: Grid, c: Coord)
    requires
        alive_at(g, c),
        live_neighbours(g, c) == 2 || live_neighbours(g, c) == 3,
    ensures
        alive_at(next_generation(g), c),
{
}

/// A tracked dead cell with exactly three live neighbours is alive after one generation.
pub proof fn lemma_birth(g: Grid, c: Coord)
    requires
        g.contains_key(c),
        !g[c],
        live_neighbours(g, c) == 3,
    ensures
        alive_at(next_generation(g), c),
{
}

/// A dead cell stays dead unless it is tracked and has exactly three live neighbours.
pub proof fn lemma_stays_dead(g: Grid, c: Coord)
    requires
        !alive_at(g, c),
        !g.contains_key(c) || live_neighbours(g, c) != 3,
    ensures
        !alive_at(next_generation(g), c),
{
}

/// Whether `c` belongs to the two-by-two block whose lowest corner is `corner`.
pub open spec fn in_block(corner: Coord, c: Coord) -> bool {
    corner.0 <= c.0 <= corner.0 + 1 && corner.1 <= c.1 <= corner.1 + 1
}

/// Whether `c` belongs to the horizontal line of three cells centred on `centre`.
pub open spec fn in_row_of_three(centre: Coord, c: Coord) -> bool {
    c.1 == centre.1 && centre.0 - 1 <= c.0 <= centre.0 + 1
}

/// Whether `c` belongs to the vertical line of three cells centred on `centre`.
pub open spec fn in_column_of_three(centre: Coord, c: Coord) -> bool {
    c.0 == centre.0 && centre.1 - 1 <= c.1 <= centre.1 + 1
}

/// A grid whose live cells are exactly a two-by-two block is unchanged by a generation.
pub proof fn lemma_block_is_still(g: Grid, corner: Coord)
    requires
        forall|c: Coord| #[trigger] alive_at(g, c) <==> in_block(corner, c),
    ensures
        next_generation(g) == g,
{
    assert forall|c: Coord| g.contains_key(c) implies next_state(g, c) == g[c] by {
        assert(alive_at(g, c) <==> in_block(corner, c));
    }
    assert(next_generation(g) =~= g);
}

/// A grid whose live cells are exactly a horizontal line of three, and which tracks the
/// cells above and below its centre, holds exactly the vertical line of three through the
/// same centre after one generation, and the horizontal line again after two.
pub proof fn lemma_blinker_oscillates(g: Grid, centre: Coord)
    requires
        forall|c: Coord| #[trigger] alive_at(g, c) <==> in_row_of_three(centre, c),
        g.contains_key((centre.0, centre.1 + 1)),
        g.contains_key((centre.0, centre.1 - 1)),
    ensures
        forall|c: Coord| #[trigger]
            alive_at(next_generation(g), c) <==> in_column_of_three(centre, c),
        next_generation(next_generation(g)) == g,
{
    let h = next_generation(g);
    assert forall|c: Coord| #[trigger] alive_at(h, c) <==> in_column_of_three(centre, c) by {
        assert(alive_at(g, c) <==> in_row_of_three(centre, c));
        if in_column_of_three(centre, c) {
            assert(g.contains_key(c)) by {
                assert(alive_at(g, (centre.0, centre.1)));
            }
        }
    }
    assert forall|c: Coord| h.contains_key(c) implies next_state(h, c) == g[c] by {
        assert(alive_at(h, c) <==> in_column_of_three(centre, c));
        assert(alive_at(g, c) <==> in_row_of_three(centre, c));
        assert(alive_at(g, (centre.0 - 1, centre.1)));
        assert(alive_at(g, (centre.0 + 1, centre.1)));
    }
    assert(next_generation(h) =~= g);
}

/// One generation neither adds nor drops a tracked coordinate.
pub proof fn lemma_generation_keeps_domain(g: Grid)
    ensures
        next_generation(g).dom() =~= g.dom(),
{
}

} // verus!
