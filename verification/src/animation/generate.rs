//! The three simulations: one population animated, two populations
//! animated, and two populations fought out for a winner.

use vstd::prelude::*;
use crate::animation::board::{
    count_of, stacked, within_palette, Board, BoardView, CHALLENGER, DEFENDER,
};
use crate::animation::rules::{
    battle_after, battle_step, conway_after, conway_step, lemma_steps_keep_palette,
    lemma_steps_keep_shape,
};
use crate::animation::start::{
    generate_start_state, start_board, Identifier, IdentifierView, HEIGHT, WIDTH,
};
use crate::animation::upscale::{
    lemma_sampled_upscaled, lemma_upscaled_source, sampled, up_scale, upscaled,
};

verus! {

/// How many times a board is magnified into a raster.
pub const SCALE: usize = 16;

/// The rasters that a vector of frames holds.
pub open spec fn rasters(states: Seq<Vec<u8>>) -> Seq<Seq<u8>> {
    states.map_values(|state: Vec<u8>| state@)
}

/// The raster that shows `board`.
pub open spec fn raster_of(board: BoardView) -> Seq<u8> {
    upscaled(board.cells, board.width, board.height, SCALE as nat)
}

/// Frame `k`, from 0, of the animation of `id`: the board after `k + 1`
/// steps. The starting board itself is never shown.
pub open spec fn animation_frame(id: IdentifierView, k: nat) -> Seq<u8> {
    raster_of(conway_after(start_board(id, CHALLENGER), k + 1))
}

/// The animation of `id` over `duration` steps.
pub open spec fn animation_frames(id: IdentifierView, duration: nat) -> Seq<Seq<u8>> {
    Seq::new(duration, |k: int| animation_frame(id, k as nat))
}

/// The board that a battle starts on: the defender's colony in the upper
/// half, the challenger's in the lower half.
pub open spec fn battle_start(challenger: IdentifierView, defender: IdentifierView) -> BoardView {
    stacked(start_board(defender, DEFENDER), start_board(challenger, CHALLENGER))
}

/// Frame `k`, from 0, of the battle between `challenger` and `defender`.
pub open spec fn battle_frame(
    challenger: IdentifierView,
    defender: IdentifierView,
    k: nat,
) -> Seq<u8> {
    raster_of(battle_after(battle_start(challenger, defender), k + 1))
}

/// The battle between `challenger` and `defender` over `duration` steps.
pub open spec fn battle_frames(
    challenger: IdentifierView,
    defender: IdentifierView,
    duration: nat,
) -> Seq<Seq<u8>> {
    Seq::new(duration, |k: int| battle_frame(challenger, defender, k as nat))
}

/// Whether more cells of `cells` belong to the challenger than to the
/// defender. An equal number is no win.
pub open spec fn challenger_leads(cells: Seq<u8>) -> bool {
    count_of(cells, CHALLENGER) > count_of(cells, DEFENDER)
}

/// Whether the challenger owns more cells than the defender after `duration`
/// steps of their battle.
pub open spec fn challenger_wins(
    challenger: IdentifierView,
    defender: IdentifierView,
    duration: nat,
) -> bool {
    challenger_leads(battle_after(battle_start(challenger, defender), duration).cells)
}

/// A battle starts on a board of sixteen columns and thirty-two rows that
/// holds palette indices only.
pub proof fn lemma_battle_start_shape(challenger: IdentifierView, defender: IdentifierView)
    ensures
        battle_start(challenger, defender).wf(),
        battle_start(challenger, defender).width == WIDTH,
        battle_start(challenger, defender).height == 2 * HEIGHT,
        within_palette(battle_start(challenger, defender).cells),
{
    let start = battle_start(challenger, defender);
    assert(start.cells.len() == 512 && start.width == 16 && start.height == 32);
}

/// Every frame of an animation has one pixel for each position of the
/// magnified board.
pub proof fn lemma_animation_frame_size(id: IdentifierView, k: nat)
    ensures
        animation_frame(id, k).len() == (WIDTH * SCALE) * (HEIGHT * SCALE),
{
    let start = start_board(id, CHALLENGER);
    lemma_steps_keep_shape(start, k + 1);
    let shown = conway_after(start, k + 1);
    assert(shown.width == 16 && shown.height == 16);
    assert(raster_of(shown).len() == (shown.width * 16) * (shown.height * 16));
}

/// Every frame of a battle has one pixel for each position of the
/// magnified board of double height.
pub proof fn lemma_battle_frame_size(challenger: IdentifierView, defender: IdentifierView, k: nat)
    ensures
        battle_frame(challenger, defender, k).len() == (WIDTH * SCALE) * (2 * HEIGHT * SCALE),
{
    let start = battle_start(challenger, defender);
    lemma_battle_start_shape(challenger, defender);
    lemma_steps_keep_shape(start, k + 1);
    let shown = battle_after(start, k + 1);
    assert(shown.width == 16 && shown.height == 32);
    assert(raster_of(shown).len() == (shown.width * 16) * (shown.height * 16));
}

/// Every pixel of every frame of an animation is one of the three palette
/// indices.
pub proof fn lemma_animation_within_palette(id: IdentifierView, k: nat)
    ensures
        within_palette(animation_frame(id, k)),
{
    let start = start_board(id, CHALLENGER);
    lemma_steps_keep_shape(start, k + 1);
    lemma_steps_keep_palette(start, k + 1);
    let shown = conway_after(start, k + 1);
    assert forall|i: int| 0 <= i < raster_of(shown).len() implies raster_of(shown)[i]
        <= DEFENDER by {
        lemma_upscaled_source(shown.cells, shown.width, shown.height, SCALE as nat, i);
    }
}

/// Every pixel of every frame of a battle is one of the three palette
/// indices.
pub proof fn lemma_battle_within_palette(
    challenger: IdentifierView,
    defender: IdentifierView,
    k: nat,
)
    ensures
        within_palette(battle_frame(challenger, defender, k)),
{
    let start = battle_start(challenger, defender);
    lemma_battle_start_shape(challenger, defender);
    lemma_steps_keep_shape(start, k + 1);
    lemma_steps_keep_palette(start, k + 1);
    let shown = battle_after(start, k + 1);
    assert forall|i: int| 0 <= i < raster_of(shown).len() implies raster_of(shown)[i]
        <= DEFENDER by {
        lemma_upscaled_source(shown.cells, shown.width, shown.height, SCALE as nat, i);
    }
}

/// The last frame of a battle shows the board that the winner is read from:
/// sampling that raster back into cells and counting them gives the verdict
/// of `is_challenger_winner` for the same identifiers and duration. A battle
/// of no steps has no frames, so the duration is at least one.
pub proof fn lemma_last_frame_shows_winner(
    challenger: IdentifierView,
    defender: IdentifierView,
    duration: nat,
)
    requires
        duration >= 1,
    ensures
        challenger_leads(
            sampled(
                battle_frames(challenger, defender, duration).last(),
                WIDTH as nat,
                2 * HEIGHT as nat,
                SCALE as nat,
            ),
        ) == challenger_wins(challenger, defender, duration),
{
    let frames = battle_frames(challenger, defender, duration);
    let start = battle_start(challenger, defender);
    let last = battle_after(start, duration);
    assert(frames.last() == raster_of(last));
    assert(last.wf() && last.width == WIDTH && last.height == 2 * HEIGHT) by {
        lemma_battle_start_shape(challenger, defender);
        lemma_steps_keep_shape(start, duration);
    }
    assert(sampled(raster_of(last), WIDTH as nat, 2 * HEIGHT as nat, SCALE as nat) == last.cells)
        by {
        lemma_sampled_upscaled(last.cells, last.width, last.height, SCALE as nat);
    }
}

fn battle_board(challenger_id: &Identifier, defender_id: &Identifier) -> (board: Board)
    ensures
        board@ == battle_start(challenger_id@, defender_id@),
{
    let challenger_state: Board = generate_start_state(challenger_id, CHALLENGER);
    let defender_state: Board = generate_start_state(defender_id, DEFENDER);
    Board::stack(defender_state, challenger_state).unwrap()
}

/// The animation of one population: `duration` rasters, one for each step
/// after the starting board, in playing order.
pub fn generate_animation(id: &Identifier, duration: u32) -> (states: Vec<Vec<u8>>)
    ensures
        states@.len() == duration,
        rasters(states@) == animation_frames(id@, duration as nat),
{
    let mut states: Vec<Vec<u8>> = Vec::new();
    let mut board: Board = generate_start_state(id, CHALLENGER);
    let mut step: u32 = 0;
    while step < duration
        invariant
            step <= duration,
            states@.len() == step,
            board@ == conway_after(start_board(id@, CHALLENGER), step as nat),
            forall|k: int|
                0 <= k < step ==> (#[trigger] states@[k])@ == animation_frame(id@, k as nat),
        decreases duration - step,
    {
        board = conway_step(&board);
        proof {
            use_type_invariant(&board);
            lemma_steps_keep_shape(start_board(id@, CHALLENGER), (step + 1) as nat);
        }
        let scaled_state: Vec<u8> = up_scale(board.cells(), board.width(), board.height(), SCALE);
        states.push(scaled_state);
        step += 1;
    }
    assert(rasters(states@) =~= animation_frames(id@, duration as nat));
    states
}

/// The animation of a battle: `duration` rasters of the doubled board, the
/// defender starting in the upper half and the challenger in the lower.
pub fn generate_battle_animation(
    challenger_id: &Identifier,
    defender_id: &Identifier,
    duration: u32,
) -> (states: Vec<Vec<u8>>)
    ensures
        states@.len() == duration,
        rasters(states@) == battle_frames(challenger_id@, defender_id@, duration as nat),
{
    let mut states: Vec<Vec<u8>> = Vec::new();
    let mut board: Board = battle_board(challenger_id, defender_id);
    let ghost start = battle_start(challenger_id@, defender_id@);
    let mut step: u32 = 0;
    while step < duration
        invariant
            step <= duration,
            states@.len() == step,
            start == battle_start(challenger_id@, defender_id@),
            board@ == battle_after(start, step as nat),
            forall|k: int|
                0 <= k < step ==> (#[trigger] states@[k])@ == battle_frame(
                    challenger_id@,
                    defender_id@,
                    k as nat,
                ),
        decreases duration - step,
    {
        board = battle_step(&board);
        proof {
            use_type_invariant(&board);
            lemma_battle_start_shape(challenger_id@, defender_id@);
            lemma_steps_keep_shape(start, (step + 1) as nat);
        }
        let scaled_state: Vec<u8> = up_scale(board.cells(), board.width(), board.height(), SCALE);
        states.push(scaled_state);
        step += 1;
    }
    assert(rasters(states@) =~= battle_frames(challenger_id@, defender_id@, duration as nat));
    states
}

/// Fights the battle for `duration` steps and says whether the challenger
/// owns more cells of the final board than the defender. A draw is the
/// defender's.
pub fn is_challenger_winner(
    challenger_id: &Identifier,
    defender_id: &Identifier,
    duration: u32,
) -> (wins: bool)
    ensures
        wins == challenger_wins(challenger_id@, defender_id@, duration as nat),
{
    let mut board: Board = battle_board(challenger_id, defender_id);
    let ghost start = battle_start(challenger_id@, defender_id@);
    let mut step: u32 = 0;
    while step < duration
        invariant
            step <= duration,
            board@ == battle_after(start, step as nat),
        decreases duration - step,
    {
        board = battle_step(&board);
        step += 1;
    }
    board.count(CHALLENGER) > board.count(DEFENDER)
}

/// How many of `defenders` the challenger beats in battles of `duration`
/// steps.
pub open spec fn wins_against(
    challenger: IdentifierView,
    defenders: Seq<IdentifierView>,
    duration: nat,
) -> nat
    decreases defenders.len(),
{
    if defenders.len() == 0 {
        0
    } else {
        wins_against(challenger, defenders.drop_last(), duration) + if challenger_wins(
            challenger,
            defenders.last(),
            duration,
        ) {
            1nat
        } else {
            0nat
        }
    }
}

/// What the identifiers of a vector are.
pub open spec fn identifiers(ids: Seq<Identifier>) -> Seq<IdentifierView> {
    ids.map_values(|id: Identifier| id@)
}

/// The fitness of a challenger: how many of the given defenders it beats
/// in battles of `duration` steps.
pub fn win_count(
    challenger_id: &Identifier,
    defender_ids: &Vec<Identifier>,
    duration: u32,
) -> (wins: usize)
    ensures
        wins == wins_against(challenger_id@, identifiers(defender_ids@), duration as nat),
        wins <= defender_ids@.len(),
{
    let ghost defenders = identifiers(defender_ids@);
    let mut wins: usize = 0;
    let mut k: usize = 0;
    while k < defender_ids.len()
        invariant
            k <= defender_ids.len(),
            defenders == identifiers(defender_ids@),
            wins <= k,
            wins == wins_against(challenger_id@, defenders.take(k as int), duration as nat),
        decreases defender_ids.len() - k,
    {
        assert(defenders.take(k + 1).drop_last() =~= defenders.take(k as int));
        assert(defenders.take(k + 1).last() == defender_ids@[k as int]@);
        if is_challenger_winner(challenger_id, &defender_ids[k], duration) {
            wins += 1;
        }
        k += 1;
    }
    assert(defenders.take(k as int) =~= defenders);
    wins
}

/// The sum of fitness values.
pub open spec fn total_of(values: Seq<usize>) -> nat
    decreases values.len(),
{
    if values.len() == 0 {
        0
    } else {
        total_of(values.drop_last()) + values.last() as nat
    }
}

/// The sum of the first values is no more than the sum of all.
pub proof fn lemma_total_of_grows(values: Seq<usize>, k: int)
    requires
        0 <= k <= values.len(),
    ensures
        total_of(values.take(k)) <= total_of(values),
    decreases values.len() - k,
{
    if k < values.len() {
        lemma_total_of_grows(values, k + 1);
        assert(values.take(k + 1).drop_last() =~= values.take(k));
    } else {
        assert(values.take(k) =~= values);
    }
}

/// The mean of fitness values, rounded down.
pub fn average(fitness_values: &Vec<usize>) -> (mean: usize)
    requires
        fitness_values@.len() > 0,
        total_of(fitness_values@) <= usize::MAX,
    ensures
        mean == total_of(fitness_values@) / fitness_values@.len(),
{
    let mut total: usize = 0;
    let mut k: usize = 0;
    while k < fitness_values.len()
        invariant
            k <= fitness_values.len(),
            total == total_of(fitness_values@.take(k as int)),
            total_of(fitness_values@) <= usize::MAX,
        decreases fitness_values.len() - k,
    {
        proof {
            lemma_total_of_grows(fitness_values@, k + 1);
            assert(fitness_values@.take(k + 1).drop_last() =~= fitness_values@.take(k as int));
        }
        total += fitness_values[k];
        k += 1;
    }
    assert(fitness_values@.take(k as int) =~= fitness_values@);
    total / fitness_values.len()
}

} // verus!
