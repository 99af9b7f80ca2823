use pokablocks::animation::board::{Board, CHALLENGER, DEFENDER};
use pokablocks::animation::generate::{
    average, generate_animation, generate_battle_animation, is_challenger_winner, win_count,
    SCALE,
};
use pokablocks::animation::rules::{battle_step, conway_step};
use pokablocks::animation::start::{generate_start_state, Identifier};
use pokablocks::animation::upscale::up_scale;

fn counting() -> [u8; 32] {
    let mut bits = [0u8; 32];
    for i in 0..32usize {
        bits[i] = i as u8;
    }
    bits
}

fn mixed() -> [u8; 32] {
    let mut bits = [0u8; 32];
    for i in 0..32usize {
        bits[i] = ((i * 7 + 3) % 256) as u8;
    }
    bits
}

fn sample(raster: &Vec<u8>, width: usize, height: usize) -> Vec<u8> {
    let mut cells = Vec::new();
    for y in 0..height {
        for x in 0..width {
            cells.push(raster[(y * 16) * (width * 16) + x * 16]);
        }
    }
    cells
}

fn count(cells: &Vec<u8>, color: u8) -> usize {
    cells.iter().filter(|&&c| c == color).count()
}

#[test]
fn scale_is_sixteen() {
    assert_eq!(SCALE, 16);
}

#[test]
fn animation_has_one_frame_for_each_step() {
    for duration in [0u32, 1, 2, 7, 100] {
        let frames = generate_animation(&Identifier::Seed(3), duration);
        assert_eq!(frames.len(), duration as usize);
        for frame in &frames {
            assert_eq!(frame.len(), 256 * 256);
        }
    }
}

#[test]
fn animation_of_no_steps_is_empty() {
    assert!(generate_animation(&Identifier::Seed(3), 0).is_empty());
    assert!(generate_animation(&Identifier::Bits([9; 32]), 0).is_empty());
    assert!(generate_battle_animation(&Identifier::Seed(3), &Identifier::Seed(4), 0).is_empty());
}

#[test]
fn battle_animation_has_one_frame_of_double_height_for_each_step() {
    for duration in [1u32, 3, 25] {
        let frames =
            generate_battle_animation(&Identifier::Seed(3), &Identifier::Seed(4), duration);
        assert_eq!(frames.len(), duration as usize);
        for frame in &frames {
            assert_eq!(frame.len(), 256 * 512);
        }
    }
}

#[test]
fn same_input_gives_the_same_animation() {
    for id in [Identifier::Seed(11), Identifier::Bits(mixed())] {
        assert_eq!(generate_animation(&id, 12), generate_animation(&id, 12));
    }
    let challenger = Identifier::Bits(counting());
    let defender = Identifier::Seed(5);
    assert_eq!(
        generate_battle_animation(&challenger, &defender, 12),
        generate_battle_animation(&challenger, &defender, 12)
    );
    assert_eq!(
        is_challenger_winner(&challenger, &defender, 12),
        is_challenger_winner(&challenger, &defender, 12)
    );
}

#[test]
fn a_longer_animation_begins_with_the_shorter() {
    let id = Identifier::Seed(8);
    let short = generate_animation(&id, 4);
    let long = generate_animation(&id, 9);
    assert_eq!(&long[..4], &short[..]);
}

#[test]
fn frames_are_the_steps_magnified() {
    let id = Identifier::Bits(mixed());
    let frames = generate_animation(&id, 5);
    let mut board = generate_start_state(&id, CHALLENGER);
    for frame in &frames {
        board = conway_step(&board);
        assert_eq!(frame, &up_scale(board.cells(), 16, 16, 16));
    }
}

#[test]
fn the_starting_board_is_not_a_frame() {
    let id = Identifier::Seed(7);
    let start = generate_start_state(&id, CHALLENGER);
    let frames = generate_animation(&id, 1);
    assert_eq!(start.count(CHALLENGER), 83);
    let first = sample(&frames[0], 16, 16);
    assert_eq!(count(&first, 1), 91);
    let alive: Vec<usize> = (0..256).filter(|&i| first[i] != 0).take(12).collect();
    assert_eq!(alive, vec![6, 17, 19, 20, 23, 24, 26, 27, 28, 32, 34, 35]);
}

#[test]
fn seeded_animation_populations() {
    let frames = generate_animation(&Identifier::Seed(42), 10);
    let populations: Vec<usize> =
        frames.iter().map(|frame| count(&sample(frame, 16, 16), 1)).collect();
    assert_eq!(populations, vec![86, 81, 71, 48, 45, 37, 28, 28, 19, 19]);
    for frame in &frames {
        assert_eq!(count(frame, 1), count(&sample(frame, 16, 16), 1) * 256);
        assert_eq!(count(frame, 2), 0);
    }
}

#[test]
fn bit_mapped_animation_populations() {
    let frames = generate_animation(&Identifier::Bits(counting()), 5);
    let populations: Vec<usize> =
        frames.iter().map(|frame| count(&sample(frame, 16, 16), 1)).collect();
    assert_eq!(populations, vec![59, 60, 51, 52, 57]);
    let last = sample(&frames[4], 16, 16);
    let alive: Vec<usize> = (0..256).filter(|&i| last[i] != 0).take(10).collect();
    assert_eq!(alive, vec![14, 15, 21, 22, 29, 31, 35, 36, 39, 43]);
}

#[test]
fn frames_hold_palette_indices_only() {
    let ids = [Identifier::Seed(13), Identifier::Bits(mixed())];
    for id in &ids {
        for frame in &generate_animation(id, 6) {
            assert!(frame.iter().all(|&pixel| pixel <= 1));
        }
    }
    for frame in &generate_battle_animation(&ids[0], &ids[1], 6) {
        assert!(frame.iter().all(|&pixel| pixel <= 2));
        assert!(frame.iter().any(|&pixel| pixel == 1));
        assert!(frame.iter().any(|&pixel| pixel == 2));
    }
}

#[test]
fn battle_starts_with_the_defender_above_the_challenger() {
    let challenger = Identifier::Seed(1);
    let defender = Identifier::Seed(2);
    let stacked = Board::stack(
        generate_start_state(&defender, DEFENDER),
        generate_start_state(&challenger, CHALLENGER),
    )
    .unwrap();
    let frames = generate_battle_animation(&challenger, &defender, 1);
    assert_eq!(sample(&frames[0], 16, 32), *battle_step(&stacked).cells());
}

#[test]
fn battle_frames_after_three_steps() {
    let frames = generate_battle_animation(&Identifier::Seed(1), &Identifier::Seed(2), 3);
    let last = sample(&frames[2], 16, 32);
    assert_eq!(count(&last, CHALLENGER), 88);
    assert_eq!(count(&last, DEFENDER), 56);
    let first: Vec<(usize, u8)> =
        (0..512).filter(|&i| last[i] != 0).map(|i| (i, last[i])).take(8).collect();
    assert_eq!(
        first,
        vec![(4, 2), (10, 2), (19, 2), (20, 2), (27, 2), (28, 2), (34, 2), (41, 2)]
    );
}

#[test]
fn winners_of_seeded_battles() {
    let pairs: [(u64, u64, bool, bool); 7] = [
        (1, 2, false, true),
        (2, 1, false, true),
        (3, 4, false, true),
        (4, 3, false, false),
        (7, 7, false, false),
        (42, 1, false, false),
        (5, 9, false, false),
    ];
    for (challenger, defender, after_hundred, after_ten) in pairs {
        let challenger = Identifier::Seed(challenger);
        let defender = Identifier::Seed(defender);
        assert_eq!(is_challenger_winner(&challenger, &defender, 100), after_hundred);
        assert_eq!(is_challenger_winner(&challenger, &defender, 10), after_ten);
    }
}

#[test]
fn winners_of_bit_mapped_battles() {
    let a = Identifier::Bits(counting());
    let b = Identifier::Bits(mixed());
    assert!(!is_challenger_winner(&a, &b, 100));
    assert!(!is_challenger_winner(&b, &a, 100));
    assert!(!is_challenger_winner(&a, &a, 100));
    assert!(is_challenger_winner(&b, &b, 100));
    assert!(is_challenger_winner(&b, &b, 250));
}

#[test]
fn a_draw_is_no_win() {
    let empty = Identifier::Bits([0; 32]);
    assert!(!is_challenger_winner(&empty, &empty, 0));
    assert!(!is_challenger_winner(&empty, &empty, 10));
    let full = Identifier::Bits([0xff; 32]);
    // Two full colonies: 256 cells each before the first step, the four
    // corners of the doubled board after it, two for each side.
    assert!(!is_challenger_winner(&full, &full, 0));
    assert!(!is_challenger_winner(&full, &full, 1));
    assert!(!is_challenger_winner(&full, &full, 10));
}

#[test]
fn mirrored_colonies_do_not_favour_the_challenger() {
    for defender in [counting(), mixed()] {
        let mut challenger = [0u8; 32];
        for row in 0..16usize {
            challenger[2 * row] = defender[2 * (15 - row)];
            challenger[2 * row + 1] = defender[2 * (15 - row) + 1];
        }
        let challenger = Identifier::Bits(challenger);
        let defender = Identifier::Bits(defender);
        assert!(!is_challenger_winner(&challenger, &defender, 5));
        assert!(!is_challenger_winner(&challenger, &defender, 100));
    }
}

#[test]
fn without_steps_the_larger_colony_wins() {
    let mut three = [0u8; 32];
    three[0] = 0b1110_0000;
    let mut two = [0u8; 32];
    two[0] = 0b1100_0000;
    assert!(is_challenger_winner(&Identifier::Bits(three), &Identifier::Bits(two), 0));
    assert!(!is_challenger_winner(&Identifier::Bits(two), &Identifier::Bits(three), 0));
    assert!(!is_challenger_winner(&Identifier::Bits(two), &Identifier::Bits(two), 0));
}

#[test]
fn last_frame_agrees_with_the_winner() {
    let ids = [
        Identifier::Seed(1),
        Identifier::Seed(2),
        Identifier::Seed(4),
        Identifier::Bits(counting()),
        Identifier::Bits(mixed()),
    ];
    for challenger in &ids {
        for defender in &ids {
            for duration in [1u32, 10, 30] {
                let frames = generate_battle_animation(challenger, defender, duration);
                let last = sample(&frames[frames.len() - 1], 16, 32);
                let leads = count(&last, CHALLENGER) > count(&last, DEFENDER);
                assert_eq!(leads, is_challenger_winner(challenger, defender, duration));
            }
        }
    }
}

#[test]
fn win_count_counts_the_battles_won() {
    let defenders = vec![
        Identifier::Seed(2),
        Identifier::Seed(9),
        Identifier::Seed(4),
        Identifier::Seed(3),
    ];
    assert_eq!(win_count(&Identifier::Seed(1), &defenders[..1].to_vec(), 10), 1);
    assert_eq!(win_count(&Identifier::Seed(5), &defenders[1..2].to_vec(), 10), 0);
    assert_eq!(win_count(&Identifier::Seed(3), &defenders, 10), 1);
    assert_eq!(win_count(&Identifier::Seed(3), &defenders, 10), {
        let mut wins = 0;
        for defender in &defenders {
            if is_challenger_winner(&Identifier::Seed(3), defender, 10) {
                wins += 1;
            }
        }
        wins
    });
    assert_eq!(win_count(&Identifier::Seed(1), &Vec::new(), 10), 0);
}

#[test]
fn average_is_the_mean_rounded_down() {
    assert_eq!(average(&vec![7]), 7);
    assert_eq!(average(&vec![1, 2, 6]), 3);
    assert_eq!(average(&vec![1, 2]), 1);
    assert_eq!(average(&vec![0, 0, 0, 0]), 0);
    assert_eq!(average(&vec![100, 0, 50, 49]), 49);
    assert_eq!(average(&vec![usize::MAX]), usize::MAX);
    assert_eq!(average(&vec![usize::MAX - 3, 1, 2]), usize::MAX / 3);
}
