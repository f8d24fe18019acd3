use life::{GridError, LifeGrid, MAX_SIZE};

fn lone_origin(size: usize) -> LifeGrid {
    let mut g = LifeGrid::new(size).unwrap();
    g.set(0, 0, true);
    g
}

#[test]
fn new_grid_is_dead() {
    let g = LifeGrid::new(4).unwrap();
    assert_eq!(g.size(), 4);
    assert_eq!(g.sizei(), 4);
    for x in 0..4 {
        for y in 0..4 {
            assert!(!g.get(x, y));
        }
    }
}

#[test]
fn new_grid_of_one_cell() {
    let g = LifeGrid::new(1).unwrap();
    assert_eq!(g.size(), 1);
    assert!(!g.get(0, 0));
    assert!(!g.get(17, -3));
}

#[test]
fn zero_size_is_rejected() {
    assert!(matches!(LifeGrid::new(0), Err(GridError::ZeroSize)));
    assert!(matches!(LifeGrid::random(0), Err(GridError::ZeroSize)));
}

#[test]
fn oversize_is_rejected() {
    assert!(matches!(LifeGrid::new(MAX_SIZE + 1), Err(GridError::TooLarge)));
    assert!(matches!(LifeGrid::new(usize::MAX), Err(GridError::TooLarge)));
    assert!(matches!(LifeGrid::random(usize::MAX), Err(GridError::TooLarge)));
    assert_eq!(MAX_SIZE, i32::MAX as usize);
}

#[test]
fn errors_compare_and_print() {
    assert_eq!(GridError::ZeroSize, GridError::ZeroSize);
    assert_ne!(GridError::ZeroSize, GridError::TooLarge);
    assert_eq!(format!("{:?}", GridError::TooLarge), "TooLarge");
}

#[test]
fn row_before_first_is_last() {
    for s in 1..=9usize {
        let mut g = LifeGrid::new(s).unwrap();
        g.set(s as i32 - 1, 0, true);
        assert!(g.get(-1, 0));
        assert_eq!(g.get(-1, 0), g.get(s as i32 - 1, 0));
        let mut h = LifeGrid::new(s).unwrap();
        h.set(0, s as i32 - 1, true);
        assert!(h.get(0, -1));
    }
}

#[test]
fn row_past_last_is_first() {
    for s in 1..=9usize {
        let g = lone_origin(s);
        assert!(g.get(s as i32, 0));
        assert!(g.get(0, s as i32));
        assert!(g.get(s as i32, s as i32));
        assert_eq!(g.get(s as i32, 0), g.get(0, 0));
    }
}

#[test]
fn access_wraps_by_true_modulus() {
    for s in 1..=7i32 {
        let g = lone_origin(s as usize);
        for c in -50..=50i32 {
            let w = c.rem_euclid(s);
            assert_eq!(g.get(c, 0), g.get(w, 0), "side {} row {}", s, c);
            assert_eq!(g.get(c, 0), w == 0, "side {} row {}", s, c);
            assert_eq!(g.get(0, c), w == 0, "side {} column {}", s, c);
            assert_eq!(g.get(c, 0), g.get(((c % s) + s) % s, 0));
        }
    }
}

#[test]
fn access_far_outside_the_grid() {
    let mut g = LifeGrid::new(7).unwrap();
    // i32::MAX = 2147483647 = 7 * 306783378 + 1
    g.set(i32::MAX, 0, true);
    assert!(g.get(1, 0));
    // i32::MIN = -2147483648 = 7 * (-306783379) + 5
    g.set(0, i32::MIN, true);
    assert!(g.get(0, 5));
    assert!(g.get(i32::MIN + 7 * 1000 + 3, 0));
    assert!(!g.get(i32::MIN, i32::MAX));
    let mut count = 0;
    for x in 0..7 {
        for y in 0..7 {
            if g.get(x, y) {
                count += 1;
            }
        }
    }
    assert_eq!(count, 2);
}

#[test]
fn first_coordinate_is_the_row() {
    let mut g = LifeGrid::new(3).unwrap();
    g.set(1, 2, true);
    assert!(g.get(1, 2));
    assert!(!g.get(2, 1));
    assert_eq!(g.render(), "+---+\n|   |\n|  x|\n|   |\n+---+\n");
}

#[test]
fn set_changes_one_cell() {
    let mut g = LifeGrid::new(5).unwrap();
    g.set(-1, 6, true);
    for x in 0..5 {
        for y in 0..5 {
            assert_eq!(g.get(x, y), x == 4 && y == 1);
        }
    }
    g.set(4, 1, false);
    for x in 0..5 {
        for y in 0..5 {
            assert!(!g.get(x, y));
        }
    }
    assert_eq!(g.size(), 5);
}

#[test]
fn set_on_one_cell_grid() {
    let mut g = LifeGrid::new(1).unwrap();
    g.set(123, -456, true);
    assert!(g.get(0, 0));
    assert!(g.get(-1, 1));
}

#[test]
fn random_grid_has_the_side_asked_for() {
    for s in [1usize, 2, 10, 33] {
        let g = LifeGrid::random(s).unwrap();
        assert_eq!(g.size(), s);
        assert_eq!(g.sizei(), s as i32);
        let text = g.render();
        assert_eq!(text.chars().count(), (s + 2) * (s + 3));
    }
}

#[test]
fn random_grid_is_not_always_the_same() {
    // 64 * 64 fair coins: two grids agree, or one is all dead or all alive,
    // with a probability far below anything a test run would meet.
    let a = LifeGrid::random(64).unwrap();
    let b = LifeGrid::random(64).unwrap();
    let mut alive = 0;
    let mut differ = 0;
    for x in 0..64 {
        for y in 0..64 {
            if a.get(x, y) {
                alive += 1;
            }
            if a.get(x, y) != b.get(x, y) {
                differ += 1;
            }
        }
    }
    assert!(alive > 0 && alive < 64 * 64);
    assert!(differ > 0);
}
