//! The two step rules: one population living by itself, and two populations
//! contesting one board.

use vstd::prelude::*;
use crate::animation::board::{
    lemma_position_of_index, within_palette, Board, BoardView, CHALLENGER, DEFENDER, EMPTY,
};

verus! {

/// What becomes of a cell of the single population that has `alive` live
/// neighbours: a live cell stays as it is with two or three of them and dies
/// otherwise, a dead cell comes alive with exactly three.
pub open spec fn conway_next(cell: u8, alive: int) -> u8 {
    if cell > 0 {
        if alive == 2 || alive == 3 {
            cell
        } else {
            EMPTY
        }
    } else if alive == 3 {
        CHALLENGER
    } else {
        EMPTY
    }
}

/// The cell at `(x, y)` one step after `board`.
pub open spec fn conway_cell(board: BoardView, x: int, y: int) -> u8 {
    conway_next(board.at(x, y), board.neighbors(x, y, CHALLENGER))
}

/// The board one step after `board`: every cell is computed from `board`
/// itself, none from a cell that has already been replaced.
pub open spec fn conway_step_of(board: BoardView) -> BoardView {
    BoardView {
        width: board.width,
        height: board.height,
        cells: Seq::new(
            board.cells.len(),
            |i: int| conway_cell(board, i % (board.width as int), i / (board.width as int)),
        ),
    }
}

/// The board `steps` steps after `board`.
pub open spec fn conway_after(board: BoardView, steps: nat) -> BoardView
    decreases steps,
{
    if steps == 0 {
        board
    } else {
        conway_step_of(conway_after(board, (steps - 1) as nat))
    }
}

/// Who takes a contested cell: the challenger with a strict majority of the
/// neighbours, the defender otherwise. A tie goes to the defender.
pub open spec fn contested_owner(challengers: int, defenders: int) -> u8 {
    if challengers > defenders {
        CHALLENGER
    } else {
        DEFENDER
    }
}

/// What becomes of a cell of a contested board with that many challenger and
/// defender neighbours. An occupied cell with two or three neighbours in all
/// goes to whoever `contested_owner` names, whoever held it before, and is
/// vacated otherwise; an empty cell with exactly three is taken the same way.
pub open spec fn battle_next(cell: u8, challengers: int, defenders: int) -> u8 {
    let total = challengers + defenders;
    if cell > 0 {
        if total == 2 || total == 3 {
            contested_owner(challengers, defenders)
        } else {
            EMPTY
        }
    } else if total == 3 {
        contested_owner(challengers, defenders)
    } else {
        EMPTY
    }
}

/// The cell at `(x, y)` one step after the contested `board`.
pub open spec fn battle_cell(board: BoardView, x: int, y: int) -> u8 {
    battle_next(board.at(x, y), board.neighbors(x, y, CHALLENGER), board.neighbors(x, y, DEFENDER))
}

/// The contested board one step after `board`.
pub open spec fn battle_step_of(board: BoardView) -> BoardView {
    BoardView {
        width: board.width,
        height: board.height,
        cells: Seq::new(
            board.cells.len(),
            |i: int| battle_cell(board, i % (board.width as int), i / (board.width as int)),
        ),
    }
}

/// The contested board `steps` steps after `board`.
pub open spec fn battle_after(board: BoardView, steps: nat) -> BoardView
    decreases steps,
{
    if steps == 0 {
        board
    } else {
        battle_step_of(battle_after(board, (steps - 1) as nat))
    }
}

/// Stepping changes neither the dimensions of a board nor the number of its
/// cells, however often it is done.
pub proof fn lemma_steps_keep_shape(board: BoardView, steps: nat)
    requires
        board.wf(),
    ensures
        conway_after(board, steps).wf(),
        conway_after(board, steps).width == board.width,
        conway_after(board, steps).height == board.height,
        battle_after(board, steps).wf(),
        battle_after(board, steps).width == board.width,
        battle_after(board, steps).height == board.height,
    decreases steps,
{
    if steps > 0 {
        lemma_steps_keep_shape(board, (steps - 1) as nat);
    }
}

/// One step of the single population leaves a board of palette indices one.
pub proof fn lemma_conway_step_keeps_palette(board: BoardView)
    requires
        within_palette(board.cells),
    ensures
        within_palette(conway_step_of(board).cells),
{
    let width = board.width as int;
    assert forall|i: int| 0 <= i < board.cells.len() implies conway_step_of(board).cells[i]
        <= DEFENDER by {
        if width > 0 {
            vstd::arithmetic::div_mod::lemma_fundamental_div_mod(i, width);
            assert((i / width) * width + i % width == i) by (nonlinear_arith)
                requires
                    i == width * (i / width) + i % width,
            ;
        }
    }
}

/// One step of a contested board leaves nothing but palette indices,
/// whatever the board held before.
pub proof fn lemma_battle_step_keeps_palette(board: BoardView)
    ensures
        within_palette(battle_step_of(board).cells),
{
}

/// A board of palette indices stays one, however often it is stepped.
pub proof fn lemma_steps_keep_palette(board: BoardView, steps: nat)
    requires
        within_palette(board.cells),
    ensures
        within_palette(conway_after(board, steps).cells),
        within_palette(battle_after(board, steps).cells),
    decreases steps,
{
    if steps > 0 {
        lemma_steps_keep_palette(board, (steps - 1) as nat);
        lemma_conway_step_keeps_palette(conway_after(board, (steps - 1) as nat));
        lemma_battle_step_keeps_palette(battle_after(board, (steps - 1) as nat));
    }
}

/// Where as many challengers as defenders surround a cell, the cell is
/// never the challenger's after the step: it is the defender's or empty.
pub proof fn lemma_tie_goes_to_defender(board: BoardView, x: int, y: int)
    requires
        board.neighbors(x, y, CHALLENGER) == board.neighbors(x, y, DEFENDER),
    ensures
        battle_cell(board, x, y) == DEFENDER || battle_cell(board, x, y) == EMPTY,
        battle_cell(board, x, y) == DEFENDER <==> board.at(x, y) > 0 && board.neighbors(
            x,
            y,
            DEFENDER,
        ) == 1,
{
}

/// The rule of the single population, for one cell.
pub fn conway_rule(cell: u8, alive: u8) -> (next: u8)
    ensures
        next == conway_next(cell, alive as int),
{
    if cell > 0 {
        if alive != 2 && alive != 3 {
            EMPTY
        } else {
            cell
        }
    } else if alive == 3 {
        CHALLENGER
    } else {
        EMPTY
    }
}

/// The one comparison that settles every contested cell.
pub fn resolve_owner(challengers: u8, defenders: u8) -> (owner: u8)
    ensures
        owner == contested_owner(challengers as int, defenders as int),
        challengers == defenders ==> owner == DEFENDER,
{
    if challengers > defenders {
        CHALLENGER
    } else {
        DEFENDER
    }
}

/// The rule of the contested board, for one cell.
pub fn battle_rule(cell: u8, challengers: u8, defenders: u8) -> (next: u8)
    requires
        challengers + defenders <= u8::MAX,
    ensures
        next == battle_next(cell, challengers as int, defenders as int),
{
    let total: u8 = challengers + defenders;
    if cell > 0 {
        if total != 2 && total != 3 {
            EMPTY
        } else {
            resolve_owner(challengers, defenders)
        }
    } else if total == 3 {
        resolve_owner(challengers, defenders)
    } else {
        EMPTY
    }
}

/// One step of the single population.
pub fn conway_step(board: &Board) -> (next: Board)
    ensures
        next@ == conway_step_of(board@),
{
    let width: usize = board.width();
    let height: usize = board.height();
    proof {
        use_type_invariant(board);
    }
    let mut cells: Vec<u8> = Vec::new();
    let mut y: usize = 0;
    while y < height
        invariant
            board@.wf(),
            width == board@.width,
            height == board@.height,
            y <= height,
            cells@.len() == y * width,
            forall|i: int|
                0 <= i < cells@.len() ==> cells@[i] == conway_cell(
                    board@,
                    i % (width as int),
                    i / (width as int),
                ),
        decreases height - y,
    {
        let mut x: usize = 0;
        while x < width
            invariant
                board@.wf(),
                width == board@.width,
                height == board@.height,
                y < height,
                x <= width,
                cells@.len() == y * width + x,
                forall|i: int|
                    0 <= i < cells@.len() ==> cells@[i] == conway_cell(
                        board@,
                        i % (width as int),
                        i / (width as int),
                    ),
            decreases width - x,
        {
            let alive: u8 = board.count_neighbors(x, y, CHALLENGER);
            let next_cell: u8 = conway_rule(board.get(x, y), alive);
            proof {
                lemma_position_of_index(x as int, y as int, width as int);
            }
            cells.push(next_cell);
            x += 1;
        }
        assert((y + 1) * width == y * width + width) by (nonlinear_arith);
        y += 1;
    }
    assert(height * width == width * height) by (nonlinear_arith);
    let next: Option<Board> = Board::new(width, height, cells);
    assert(next.unwrap()@.cells =~= conway_step_of(board@).cells);
    next.unwrap()
}

/// One step of the contested board.
pub fn battle_step(board: &Board) -> (next: Board)
    ensures
        next@ == battle_step_of(board@),
{
    let width: usize = board.width();
    let height: usize = board.height();
    proof {
        use_type_invariant(board);
    }
    let mut cells: Vec<u8> = Vec::new();
    let mut y: usize = 0;
    while y < height
        invariant
            board@.wf(),
            width == board@.width,
            height == board@.height,
            y <= height,
            cells@.len() == y * width,
            forall|i: int|
                0 <= i < cells@.len() ==> cells@[i] == battle_cell(
                    board@,
                    i % (width as int),
                    i / (width as int),
                ),
        decreases height - y,
    {
        let mut x: usize = 0;
        while x < width
            invariant
                board@.wf(),
                width == board@.width,
                height == board@.height,
                y < height,
                x <= width,
                cells@.len() == y * width + x,
                forall|i: int|
                    0 <= i < cells@.len() ==> cells@[i] == battle_cell(
                        board@,
                        i % (width as int),
                        i / (width as int),
                    ),
            decreases width - x,
        {
            let challengers: u8 = board.count_neighbors(x, y, CHALLENGER);
            let defenders: u8 = board.count_neighbors(x, y, DEFENDER);
            let next_cell: u8 = battle_rule(board.get(x, y), challengers, defenders);
            proof {
                lemma_position_of_index(x as int, y as int, width as int);
            }
            cells.push(next_cell);
            x += 1;
        }
        assert((y + 1) * width == y * width + width) by (nonlinear_arith);
        y += 1;
    }
    assert(height * width == width * height) by (nonlinear_arith);
    let next: Option<Board> = Board::new(width, height, cells);
    assert(next.unwrap()@.cells =~= battle_step_of(board@).cells);
    next.unwrap()
}

} // verus!
