use life::board::Board;

fn board_with(width: usize, height: usize, alive: &[(i32, i32)]) -> Board {
    let mut b = Board::new(width, height);
    for &(x, y) in alive {
        assert_eq!(b.set(x, y, true), Some(()));
    }
    b
}

fn assert_exactly_alive(b: &Board, width: i32, height: i32, alive: &[(i32, i32)]) {
    for y in 0..height {
        for x in 0..width {
            let expected = alive.contains(&(x, y));
            assert_eq!(b.get(x, y), Some(expected), "cell ({x}, {y})");
        }
    }
}

#[test]
fn block_is_a_still_life() {
    let block = [(4, 4), (5, 4), (4, 5), (5, 5)];
    let b = board_with(10, 10, &block).next();
    assert_exactly_alive(&b, 10, 10, &block);
}

#[test]
fn blinker_oscillates() {
    let horizontal = [(4, 5), (5, 5), (6, 5)];
    let vertical = [(5, 4), (5, 5), (5, 6)];
    let b = board_with(10, 10, &horizontal);
    let b = b.next();
    assert_exactly_alive(&b, 10, 10, &vertical);
    let b = b.next();
    assert_exactly_alive(&b, 10, 10, &horizontal);
}

#[test]
fn lone_cell_dies_of_isolation() {
    let b = board_with(9, 9, &[(4, 4)]).next();
    assert_exactly_alive(&b, 9, 9, &[]);
}

#[test]
fn crowded_cell_dies_of_overcrowding() {
    // the center cell has 4 live neighbors, so it dies
    let plus = [(5, 5), (4, 5), (6, 5), (5, 4), (5, 6)];
    let b = board_with(11, 11, &plus).next();
    assert_eq!(b.get(5, 5), Some(false));
}

#[test]
fn corner_cell_treats_off_board_neighbors_as_dead() {
    // the corner cell has 3 live neighbors on the board, so it survives;
    // a birth happens at (1, 1), which also sees exactly 3 live cells
    let corner = [(0, 0), (1, 0), (0, 1)];
    let b = board_with(6, 6, &corner).next();
    assert_exactly_alive(&b, 6, 6, &[(0, 0), (1, 0), (0, 1), (1, 1)]);
}

#[test]
fn transition_is_deterministic() {
    let seed = [(2, 1), (3, 2), (1, 3), (2, 3), (3, 3)];
    let one = board_with(12, 12, &seed).next().next();
    let other = board_with(12, 12, &seed).next().next();
    for y in 0..12 {
        for x in 0..12 {
            assert_eq!(one.get(x, y), other.get(x, y), "cell ({x}, {y})");
        }
    }
}
