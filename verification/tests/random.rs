use game_of_life::{ConwayBoard, Variant};
use rand::rngs::StdRng;
use rand::{Rng, SeedableRng};

fn count_live(board: &ConwayBoard) -> usize {
    let mut live = 0;
    for y in 0..board.height() {
        for x in 0..board.width() {
            if board.get(x, y) {
                live += 1;
            }
        }
    }
    live
}

#[test]
fn randomize_gives_a_mixed_board() {
    for _ in 0..8 {
        let mut board = ConwayBoard::new(40, 25);
        board.randomize();
        let live = count_live(&board);
        assert!(live > 0);
        assert!(live < 40 * 25);
    }
}

#[test]
fn randomize_keeps_dimensions_and_variant() {
    let mut board = ConwayBoard::new_drylife(7, 3);
    board.randomize();
    assert_eq!(board.width(), 7);
    assert_eq!(board.height(), 3);
    assert_eq!(board.variant(), Variant::Drylife);
    // Every coordinate is still readable.
    assert!(count_live(&board) <= 21);
}

#[test]
fn randomize_replaces_earlier_cells() {
    // On a board that was all alive, a fresh draw leaves some cell dead.
    let mut board = ConwayBoard::new(40, 25);
    assert!(board.replace_cells(vec![true; 1000]));
    board.randomize();
    assert!(count_live(&board) < 1000);
}

#[test]
fn seeded_cells_give_the_same_board_twice() {
    let mut boards = Vec::new();
    for _ in 0..2 {
        let mut rng = StdRng::seed_from_u64(7);
        let mut cells = vec![false; 12 * 9];
        rng.fill(&mut cells[..]);
        let mut board = ConwayBoard::new(12, 9);
        assert!(board.replace_cells(cells.clone()));
        for y in 0..9 {
            for x in 0..12 {
                assert_eq!(board.get(x, y), cells[y * 12 + x]);
            }
        }
        for _ in 0..5 {
            board.simulate();
        }
        let mut after = Vec::new();
        for y in 0..9 {
            for x in 0..12 {
                after.push(board.get(x, y));
            }
        }
        boards.push(after);
    }
    assert_eq!(boards[0], boards[1]);
}
