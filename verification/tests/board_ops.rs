use life::board::{acorn, Board};

#[test]
fn new_board_is_empty() {
    let b = Board::new(5, 4);
    for y in 0..4 {
        for x in 0..5 {
            assert_eq!(b.get(x, y), Some(false));
        }
    }
}

#[test]
fn get_rejects_out_of_range() {
    let b = Board::new(5, 4);
    assert_eq!(b.get(-1, 0), None);
    assert_eq!(b.get(0, -1), None);
    assert_eq!(b.get(5, 0), None);
    assert_eq!(b.get(0, 4), None);
    assert_eq!(b.get(-1, -1), None);
    assert_eq!(b.get(i32::MIN, i32::MAX), None);
    assert_eq!(b.get(0, 0), Some(false));
    assert_eq!(b.get(4, 3), Some(false));
}

#[test]
fn set_rejects_out_of_range() {
    let mut b = Board::new(5, 4);
    assert_eq!(b.set(-1, 0, true), None);
    assert_eq!(b.set(0, -1, true), None);
    assert_eq!(b.set(5, 0, true), None);
    assert_eq!(b.set(0, 4, true), None);
    // the failed writes changed nothing
    for y in 0..4 {
        for x in 0..5 {
            assert_eq!(b.get(x, y), Some(false));
        }
    }
    assert_eq!(b.set(0, 0, true), Some(()));
    assert_eq!(b.set(4, 3, true), Some(()));
    assert_eq!(b.get(0, 0), Some(true));
    assert_eq!(b.get(4, 3), Some(true));
    assert_eq!(b.get(1, 1), Some(false));
}

#[test]
fn blit_within_bounds_reproduces_source() {
    let mut src = Board::new(2, 2);
    assert_eq!(src.set(0, 0, true), Some(()));
    assert_eq!(src.set(1, 1, true), Some(()));
    let mut dst = Board::new(6, 6);
    assert_eq!(dst.set(0, 0, true), Some(()));
    dst.blit(3, 2, &src);
    for y in 0..6 {
        for x in 0..6 {
            let expected = if (3..5).contains(&x) && (2..4).contains(&y) {
                // the stamped region matches the source pattern
                (x - 3 == 0 && y - 2 == 0) || (x - 3 == 1 && y - 2 == 1)
            } else {
                // everything else keeps its prior state
                x == 0 && y == 0
            };
            assert_eq!(dst.get(x, y), Some(expected), "cell ({x}, {y})");
        }
    }
}

#[test]
fn blit_clips_at_edges() {
    let mut src = Board::new(3, 3);
    for y in 0..3 {
        for x in 0..3 {
            assert_eq!(src.set(x, y, true), Some(()));
        }
    }
    let mut dst = Board::new(4, 4);
    assert_eq!(dst.set(3, 3, true), Some(()));
    // only the bottom-right 2x2 corner of the source lands on the board
    dst.blit(-1, -1, &src);
    for y in 0..4 {
        for x in 0..4 {
            let expected = (x < 2 && y < 2) || (x == 3 && y == 3);
            assert_eq!(dst.get(x, y), Some(expected), "cell ({x}, {y})");
        }
    }
}

#[test]
fn blit_fully_off_board_changes_nothing() {
    let mut src = Board::new(2, 2);
    assert_eq!(src.set(0, 0, true), Some(()));
    assert_eq!(src.set(1, 1, true), Some(()));
    let mut dst = Board::new(4, 4);
    dst.blit(100, -100, &src);
    for y in 0..4 {
        for x in 0..4 {
            assert_eq!(dst.get(x, y), Some(false));
        }
    }
}

#[test]
fn acorn_has_its_seven_cells() {
    let a = acorn();
    let alive = [(1, 0), (3, 1), (0, 2), (1, 2), (4, 2), (5, 2), (6, 2)];
    for y in 0..3 {
        for x in 0..7 {
            let expected = alive.contains(&(x, y));
            assert_eq!(a.get(x, y), Some(expected), "cell ({x}, {y})");
        }
    }
}
