//! From a block identifier to the board that a simulation starts on.
//!
//! There are two ways to derive the board, and an identifier says which one
//! it is meant for. They are not interchangeable: the same number read as
//! 256 bits and as a seed gives unrelated boards. The request handlers of
//! this crate use the bit-mapped form.

use vstd::prelude::*;
use rand_xoshiro::rand_core::RngCore;
use rand_xoshiro::rand_core::SeedableRng;
use rand_xoshiro::Xoshiro256StarStar;
use crate::animation::board::{
    count_of, lemma_count_of_bound, lemma_count_of_uniform, Board, BoardView, CHALLENGER, EMPTY,
};

verus! {

/// Columns of a starting board.
pub const WIDTH: usize = 16;

/// Rows of a starting board.
pub const HEIGHT: usize = 16;

/// Cells of a starting board.
pub const SIZE: usize = WIDTH * HEIGHT;

/// A 256-bit block identifier, most significant byte first.
pub type BlockId = [u8; 32];

/// A block identifier together with the way its starting board is derived.
#[derive(Clone, Copy, Debug)]
pub enum Identifier {
    /// Bit-mapped: every bit of the 256-bit identifier is one cell.
    Bits(BlockId),
    /// Seeded density: the identifier seeds a generator that draws one word
    /// for each cell.
    Seed(u64),
}

/// What an identifier is: the 32 bytes of the bit-mapped form, or the seed.
pub enum IdentifierView {
    Bits(Seq<u8>),
    Seed(u64),
}

impl View for Identifier {
    type V = IdentifierView;

    open spec fn view(&self) -> IdentifierView {
        match *self {
            Identifier::Bits(bits) => IdentifierView::Bits(bits@),
            Identifier::Seed(seed) => IdentifierView::Seed(seed),
        }
    }
}

/// Bit `i` of a 256-bit identifier, counted from the most significant bit of
/// its first byte.
pub open spec fn bit_at(id: Seq<u8>, i: int) -> bool {
    (id[i / 8] >> ((7 - i % 8) as u8)) & 1 == 1
}

/// `rand_xoshiro::Xoshiro256StarStar`, a generator whose state the verifier
/// does not look into.
#[verifier::external_type_specification]
#[verifier::external_body]
pub struct ExXoshiro256StarStar(Xoshiro256StarStar);

/// The generator that `Xoshiro256StarStar::seed_from_u64` returns for `seed`.
pub uninterp spec fn generator_from_seed(seed: u64) -> Xoshiro256StarStar;

/// The word that `next_u32` returns when the generator is in state `rng`.
pub uninterp spec fn generator_word(rng: Xoshiro256StarStar) -> u32;

/// The state in which `next_u32` leaves a generator that was in state `rng`.
pub uninterp spec fn generator_advanced(rng: Xoshiro256StarStar) -> Xoshiro256StarStar;

/// The generator seeded with `seed` after `draws` words have been drawn.
pub open spec fn generator_after(seed: u64, draws: nat) -> Xoshiro256StarStar
    decreases draws,
{
    if draws == 0 {
        generator_from_seed(seed)
    } else {
        generator_advanced(generator_after(seed, (draws - 1) as nat))
    }
}

/// The word with index `k`, from 0, that a generator seeded with `seed`
/// yields.
pub open spec fn seeded_word(seed: u64, k: nat) -> u32 {
    generator_word(generator_after(seed, k))
}

/// Whether a cell is occupied for which the generator drew `word`: one word
/// in three occupies its cell.
pub open spec fn word_occupies(word: u32) -> bool {
    word % 3 == 0
}

/// Whether the cell with row-major index `i` is occupied at the start.
pub open spec fn starts_occupied(id: IdentifierView, i: int) -> bool {
    match id {
        IdentifierView::Bits(bits) => bit_at(bits, i),
        IdentifierView::Seed(seed) => word_occupies(seeded_word(seed, i as nat)),
    }
}

/// The starting board of `id`, its occupied cells holding `color`.
pub open spec fn start_board(id: IdentifierView, color: u8) -> BoardView {
    BoardView {
        width: WIDTH as nat,
        height: HEIGHT as nat,
        cells: Seq::new(
            SIZE as nat,
            |i: int|
                if starts_occupied(id, i) {
                    color
                } else {
                    EMPTY
                },
        ),
    }
}

/// `Xoshiro256StarStar::seed_from_u64`: the generator depends on the seed
/// alone.
#[verifier::external_body]
fn seeded_generator(seed: u64) -> (rng: Xoshiro256StarStar)
    ensures
        rng == generator_from_seed(seed),
{
    Xoshiro256StarStar::seed_from_u64(seed)
}

/// `RngCore::next_u32` on a `Xoshiro256StarStar`: the word drawn and the
/// state left behind depend on the state before the call alone.
#[verifier::external_body]
fn next_word(rng: &mut Xoshiro256StarStar) -> (word: u32)
    ensures
        word == generator_word(*old(rng)),
        *final(rng) == generator_advanced(*old(rng)),
{
    rng.next_u32()
}

/// The cell for which the generator drew `word`, on a board whose occupied
/// cells hold `color`.
pub fn seeded_cell(word: u32, color: u8) -> (cell: u8)
    ensures
        cell == if word_occupies(word) {
            color
        } else {
            EMPTY
        },
{
    if word % 3 == 0 {
        color
    } else {
        EMPTY
    }
}

/// The cell of bit `i` of `bits`, on a board whose occupied cells hold
/// `color`.
pub fn bit_mapped_cell(bits: &BlockId, i: usize, color: u8) -> (cell: u8)
    requires
        i < SIZE,
    ensures
        cell == if bit_at(bits@, i as int) {
            color
        } else {
            EMPTY
        },
{
    let byte: u8 = bits[i / 8];
    let shift: u8 = (7 - i % 8) as u8;
    if (byte >> shift) & 1 == 1 {
        color
    } else {
        EMPTY
    }
}

fn bit_mapped_cells(bits: &BlockId, color: u8) -> (cells: Vec<u8>)
    ensures
        cells@ == start_board(IdentifierView::Bits(bits@), color).cells,
{
    let mut cells: Vec<u8> = Vec::new();
    let mut i: usize = 0;
    while i < SIZE
        invariant
            i <= SIZE,
            cells@.len() == i,
            forall|k: int|
                0 <= k < i ==> cells@[k] == if bit_at(bits@, k) {
                    color
                } else {
                    EMPTY
                },
        decreases SIZE - i,
    {
        cells.push(bit_mapped_cell(bits, i, color));
        i += 1;
    }
    assert(cells@ =~= start_board(IdentifierView::Bits(bits@), color).cells);
    cells
}

fn seeded_cells(seed: u64, color: u8) -> (cells: Vec<u8>)
    ensures
        cells@ == start_board(IdentifierView::Seed(seed), color).cells,
{
    let mut cells: Vec<u8> = Vec::new();
    let mut rng: Xoshiro256StarStar = seeded_generator(seed);
    let mut i: usize = 0;
    while i < SIZE
        invariant
            i <= SIZE,
            cells@.len() == i,
            rng == generator_after(seed, i as nat),
            forall|k: int|
                0 <= k < i ==> cells@[k] == if word_occupies(seeded_word(seed, k as nat)) {
                    color
                } else {
                    EMPTY
                },
        decreases SIZE - i,
    {
        let word: u32 = next_word(&mut rng);
        cells.push(seeded_cell(word, color));
        i += 1;
    }
    assert(cells@ =~= start_board(IdentifierView::Seed(seed), color).cells);
    cells
}

/// The board that the simulation of `id` starts on, its occupied cells
/// holding `color`.
pub fn generate_start_state(id: &Identifier, color: u8) -> (board: Board)
    ensures
        board@ == start_board(id@, color),
{
    let cells: Vec<u8> = match id {
        Identifier::Bits(bits) => bit_mapped_cells(bits, color),
        Identifier::Seed(seed) => seeded_cells(*seed, color),
    };
    Board::new(WIDTH, HEIGHT, cells).unwrap()
}

/// How many cells of the starting board of `id` are occupied.
pub fn generate_block_cnt(id: &Identifier) -> (count: u32)
    ensures
        count == count_of(start_board(id@, CHALLENGER).cells, CHALLENGER),
        count <= SIZE,
{
    let board: Board = generate_start_state(id, CHALLENGER);
    proof {
        lemma_count_of_bound(board@.cells, CHALLENGER);
    }
    board.count(CHALLENGER) as u32
}

/// The identifier with no bit set starts on an empty board.
pub proof fn lemma_no_bit_set(bits: Seq<u8>, color: u8)
    requires
        bits.len() == 32,
        forall|k: int| 0 <= k < 32 ==> bits[k] == 0,
    ensures
        forall|i: int|
            0 <= i < SIZE ==> start_board(IdentifierView::Bits(bits), color).cells[i] == EMPTY,
        count_of(start_board(IdentifierView::Bits(bits), CHALLENGER).cells, CHALLENGER) == 0,
{
    assert(forall|s: u8| s < 8 ==> (0u8 >> s) & 1 != 1) by (bit_vector);
    assert forall|i: int| 0 <= i < SIZE implies !bit_at(bits, i) by {
        assert(bits[i / 8] == 0);
    }
    lemma_count_of_uniform(
        start_board(IdentifierView::Bits(bits), CHALLENGER).cells,
        EMPTY,
        CHALLENGER,
    );
}

/// The identifier with all 256 bits set starts on a board whose every cell
/// is occupied.
pub proof fn lemma_all_bits_set(bits: Seq<u8>, color: u8)
    requires
        bits.len() == 32,
        forall|k: int| 0 <= k < 32 ==> bits[k] == 0xff,
    ensures
        forall|i: int|
            0 <= i < SIZE ==> start_board(IdentifierView::Bits(bits), color).cells[i] == color,
        count_of(start_board(IdentifierView::Bits(bits), CHALLENGER).cells, CHALLENGER) == SIZE,
{
    assert(forall|s: u8| s < 8 ==> (0xffu8 >> s) & 1 == 1) by (bit_vector);
    assert forall|i: int| 0 <= i < SIZE implies bit_at(bits, i) by {
        assert(bits[i / 8] == 0xff);
    }
    lemma_count_of_uniform(
        start_board(IdentifierView::Bits(bits), CHALLENGER).cells,
        CHALLENGER,
        CHALLENGER,
    );
}

} // verus!
