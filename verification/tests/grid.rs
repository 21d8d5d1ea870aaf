use game_of_life::coord::{decode, encode};
use game_of_life::rule::next_state_of;
use game_of_life::{Bounds, Cell, Cells, Change, GameState};

fn sorted(mut cells: Vec<Cell>) -> Vec<(i32, i32)> {
    let mut out: Vec<(i32, i32)> = cells.drain(..).map(|c| (c.x, c.y)).collect();
    out.sort();
    out
}

fn sorted_changes(changes: Vec<Change>) -> Vec<(i32, i32, bool)> {
    let mut out: Vec<(i32, i32, bool)> =
        changes.iter().map(|c| (c.cell.x, c.cell.y, c.alive)).collect();
    out.sort();
    out
}

#[test]
fn encode_gives_the_documented_key() {
    assert_eq!(encode(i32::MIN, i32::MIN), 0);
    assert_eq!(encode(i32::MIN, i32::MAX), 0xffff_ffff);
    assert_eq!(encode(0, 0), 0x8000_0000_8000_0000);
    assert_eq!(encode(1, -1), 0x8000_0001_7fff_ffff);
    assert_eq!(encode(-1, 2), 0x7fff_ffff_8000_0002);
    assert_eq!(encode(i32::MAX, i32::MAX), u64::MAX);
}

#[test]
fn decode_inverts_encode() {
    let samples = [
        (0, 0),
        (1, -1),
        (-100, 99),
        (i32::MIN, i32::MAX),
        (i32::MAX, i32::MIN),
        (i32::MAX, i32::MAX),
        (i32::MIN, i32::MIN),
    ];
    for (x, y) in samples {
        assert_eq!(decode(encode(x, y)), Cell { x, y });
    }
    assert_eq!(decode(0), Cell { x: i32::MIN, y: i32::MIN });
    assert_eq!(decode(u64::MAX), Cell { x: i32::MAX, y: i32::MAX });
    assert_eq!(decode(0x8000_0000_8000_0003), Cell { x: 0, y: 3 });
}

#[test]
fn distinct_cells_have_distinct_keys() {
    assert_ne!(encode(0, 1), encode(1, 0));
    assert_ne!(encode(-1, 0), encode(0, -1));
    assert_ne!(encode(0, i32::MIN), encode(-1, i32::MAX));
}

#[test]
fn bounds_are_half_open() {
    let b = Bounds { x_min: -1, x_max: 2, y_min: 0, y_max: 1 };
    assert!(b.includes(-1, 0));
    assert!(b.includes(1, 0));
    assert!(!b.includes(2, 0));
    assert!(!b.includes(0, 1));
    assert!(!b.includes(-2, 0));
    assert!(!b.includes(0, -1));
}

#[test]
fn rule_table() {
    let live_next = [false, false, true, true, false, false, false, false, false];
    let dead_next = [false, false, false, true, false, false, false, false, false];
    for n in 0u8..=8 {
        assert_eq!(next_state_of(true, n), live_next[n as usize], "live, {} neighbours", n);
        assert_eq!(next_state_of(false, n), dead_next[n as usize], "dead, {} neighbours", n);
    }
}

#[test]
fn run_state_defaults_to_pause_and_toggles() {
    assert_eq!(GameState::default(), GameState::Pause);
    assert_eq!(GameState::Pause.toggled(), GameState::Play);
    assert_eq!(GameState::Play.toggled(), GameState::Pause);
}

#[test]
fn new_grid_tracks_nothing() {
    let cells = Cells::new();
    assert_eq!(cells.coordinates().len(), 0);
    assert_eq!(cells.get(0, 0), None);
    assert!(!cells.is_alive(0, 0));
    assert_eq!(cells.changes().len(), 0);
}

#[test]
fn dead_within_tracks_exactly_the_rectangle() {
    let cells = Cells::dead_within(Bounds { x_min: -1, x_max: 1, y_min: 3, y_max: 6 });
    assert_eq!(
        sorted(cells.coordinates()),
        vec![(-1, 3), (-1, 4), (-1, 5), (0, 3), (0, 4), (0, 5)]
    );
    assert_eq!(cells.get(0, 4), Some(false));
    assert_eq!(cells.get(1, 4), None);
    assert_eq!(cells.get(0, 6), None);
}

#[test]
fn dead_within_empty_bounds_tracks_nothing() {
    let none = Cells::dead_within(Bounds { x_min: 2, x_max: 2, y_min: 0, y_max: 5 });
    assert_eq!(none.coordinates().len(), 0);
    let inverted = Cells::dead_within(Bounds { x_min: 0, x_max: 4, y_min: 3, y_max: -3 });
    assert_eq!(inverted.coordinates().len(), 0);
}

#[test]
fn dead_within_reaches_the_largest_coordinates() {
    let cells = Cells::dead_within(Bounds {
        x_min: i32::MAX - 1,
        x_max: i32::MAX,
        y_min: i32::MIN,
        y_max: i32::MIN + 2,
    });
    assert_eq!(
        sorted(cells.coordinates()),
        vec![(i32::MAX - 1, i32::MIN), (i32::MAX - 1, i32::MIN + 1)]
    );
}

#[test]
fn get_tells_dead_from_untracked() {
    let mut cells = Cells::new();
    cells.set_cell(3, 4, false);
    cells.set_cell(4, 3, true);
    assert_eq!(cells.get(3, 4), Some(false));
    assert_eq!(cells.get(4, 3), Some(true));
    assert_eq!(cells.get(4, 4), None);
    assert!(!cells.is_alive(3, 4));
    assert!(cells.is_alive(4, 3));
    assert!(!cells.is_alive(4, 4));
}

#[test]
fn coordinates_lists_each_cell_once() {
    let mut cells = Cells::new();
    cells.set_cell(1, 2, true);
    cells.set_cell(1, 2, false);
    cells.set_cell(-5, 7, true);
    cells.set_cell(1, 2, true);
    assert_eq!(sorted(cells.coordinates()), vec![(-5, 7), (1, 2)]);
}

#[test]
fn live_neighbours_counts_all_eight_directions() {
    let mut cells = Cells::new();
    assert_eq!(cells.live_neighbours(0, 0), 0);
    let around = [(1, 1), (1, 0), (1, -1), (0, -1), (0, 1), (-1, -1), (-1, 1), (-1, 0)];
    let mut expected = 0u8;
    for (x, y) in around {
        cells.set_cell(x, y, true);
        expected += 1;
        assert_eq!(cells.live_neighbours(0, 0), expected);
    }
    cells.set_cell(0, 0, true);
    assert_eq!(cells.live_neighbours(0, 0), 8);
    cells.set_cell(2, 0, true);
    cells.set_cell(0, -2, true);
    assert_eq!(cells.live_neighbours(0, 0), 8);
    cells.set_cell(1, 1, false);
    assert_eq!(cells.live_neighbours(0, 0), 7);
}

#[test]
fn live_neighbours_at_the_edge_of_the_coordinate_space() {
    let mut cells = Cells::new();
    cells.set_cell(i32::MAX, i32::MAX, true);
    cells.set_cell(i32::MAX - 1, i32::MAX, true);
    cells.set_cell(i32::MIN, i32::MIN, true);
    cells.set_cell(i32::MIN, i32::MAX, true);
    assert_eq!(cells.live_neighbours(i32::MAX, i32::MAX), 1);
    assert_eq!(cells.live_neighbours(i32::MAX - 1, i32::MAX - 1), 2);
    assert_eq!(cells.live_neighbours(i32::MIN, i32::MIN), 0);
    assert_eq!(cells.live_neighbours(i32::MIN + 1, i32::MIN + 1), 1);
    cells.advance();
    assert!(!cells.is_alive(i32::MAX, i32::MAX));
    assert!(!cells.is_alive(i32::MIN, i32::MIN));
}

#[test]
fn changes_lists_exactly_the_flips() {
    let mut cells = Cells::dead_within(Bounds { x_min: -2, x_max: 3, y_min: -2, y_max: 3 });
    cells.set_cell(-1, 0, true);
    cells.set_cell(0, 0, true);
    cells.set_cell(1, 0, true);
    assert_eq!(
        sorted_changes(cells.changes()),
        vec![(-1, 0, false), (0, -1, true), (0, 1, true), (1, 0, false)]
    );
    assert!(cells.is_alive(-1, 0));
    assert!(!cells.is_alive(0, 1));
}

#[test]
fn changes_of_a_still_life_is_empty() {
    let mut cells = Cells::dead_within(Bounds { x_min: -2, x_max: 4, y_min: -2, y_max: 4 });
    cells.set_cell(0, 0, true);
    cells.set_cell(1, 0, true);
    cells.set_cell(0, 1, true);
    cells.set_cell(1, 1, true);
    assert_eq!(cells.changes().len(), 0);
}

#[test]
fn advance_reads_the_grid_as_it_was_before() {
    let mut cells = Cells::dead_within(Bounds { x_min: 0, x_max: 4, y_min: 0, y_max: 1 });
    cells.set_cell(0, 0, true);
    cells.set_cell(1, 0, true);
    cells.set_cell(2, 0, true);
    cells.set_cell(3, 0, true);
    cells.advance();
    assert_eq!(cells.get(0, 0), Some(false));
    assert_eq!(cells.get(1, 0), Some(true));
    assert_eq!(cells.get(2, 0), Some(true));
    assert_eq!(cells.get(3, 0), Some(false));
}

#[test]
fn advance_applies_the_glider_rule_for_four_generations() {
    let mut cells = Cells::dead_within(Bounds { x_min: -4, x_max: 8, y_min: -8, y_max: 4 });
    for (x, y) in [(1, 0), (2, -1), (0, -2), (1, -2), (2, -2)] {
        cells.set_cell(x, y, true);
    }
    for _ in 0..4 {
        cells.advance();
    }
    let mut live: Vec<(i32, i32)> = cells
        .coordinates()
        .iter()
        .filter(|c| cells.is_alive(c.x, c.y))
        .map(|c| (c.x, c.y))
        .collect();
    live.sort();
    assert_eq!(live, vec![(1, -3), (2, -3), (2, -1), (3, -3), (3, -2)]);
}
