use life::LifeGrid;

fn live_cells(g: &LifeGrid) -> Vec<(i32, i32)> {
    let mut out = Vec::new();
    for x in 0..g.sizei() {
        for y in 0..g.sizei() {
            if g.get(x, y) {
                out.push((x, y));
            }
        }
    }
    out
}

fn same_cells(a: &LifeGrid, b: &LifeGrid) -> bool {
    a.size() == b.size() && live_cells(a) == live_cells(b)
}

#[test]
fn glider_cells() {
    let mut g = LifeGrid::new(6).unwrap();
    g.glider(1, 2);
    // rows start at 2, columns at 1
    assert_eq!(live_cells(&g), vec![(2, 2), (3, 3), (4, 1), (4, 2), (4, 3)]);
    assert_eq!(
        g.render(),
        "+------+\n|      |\n|      |\n|  x   |\n|   x  |\n| xxx  |\n|      |\n+------+\n"
    );
}

#[test]
fn lwss_cells() {
    let mut g = LifeGrid::new(7).unwrap();
    g.lwss(1, 2);
    assert_eq!(
        live_cells(&g),
        vec![(2, 2), (2, 3), (2, 4), (2, 5), (3, 1), (3, 5), (4, 5), (5, 1), (5, 4)]
    );
    assert_eq!(
        g.render(),
        "+-------+\n|       |\n|       |\n|  xxxx |\n| x   x |\n|     x |\n| x  x  |\n|       |\n+-------+\n"
    );
}

#[test]
fn glider_is_a_stamped_pattern() {
    let mut a = LifeGrid::new(9).unwrap();
    a.glider(-2, 7);
    let mut b = LifeGrid::new(9).unwrap();
    b.put_pattern(
        -2,
        7,
        vec![
            vec![false, true, false],
            vec![false, false, true],
            vec![true, true, true],
        ],
    );
    assert!(same_cells(&a, &b));
    assert_eq!(live_cells(&a).len(), 5);
}

#[test]
fn pattern_cell_goes_to_its_row_and_column() {
    let pattern = vec![vec![true, false, true, true], vec![false, true, false, false]];
    let mut g = LifeGrid::new(8).unwrap();
    g.put_pattern(3, 5, pattern.clone());
    for dy in 0..2 {
        for dx in 0..4 {
            assert_eq!(g.get(5 + dy as i32, 3 + dx as i32), pattern[dy][dx]);
        }
    }
    assert_eq!(live_cells(&g), vec![(5, 3), (5, 5), (5, 6), (6, 4)]);
}

#[test]
fn pattern_writes_dead_cells_too() {
    let mut g = LifeGrid::new(4).unwrap();
    for x in 0..4 {
        for y in 0..4 {
            g.set(x, y, true);
        }
    }
    g.put_pattern(1, 1, vec![vec![false, true], vec![true, false]]);
    assert!(!g.get(1, 1));
    assert!(g.get(1, 2));
    assert!(g.get(2, 1));
    assert!(!g.get(2, 2));
    assert_eq!(live_cells(&g).len(), 14);
}

#[test]
fn pattern_wraps_over_the_edges() {
    let mut g = LifeGrid::new(5).unwrap();
    g.glider(4, 3);
    // pattern rows 3, 4, 0; pattern columns 4, 0, 1
    assert_eq!(live_cells(&g), vec![(0, 0), (0, 1), (0, 4), (3, 0), (4, 1)]);
    let mut h = LifeGrid::new(5).unwrap();
    h.glider(-1, -2);
    assert_eq!(live_cells(&h), vec![(0, 0), (0, 1), (0, 4), (3, 0), (4, 1)]);
}

#[test]
fn pattern_at_a_far_anchor() {
    let mut g = LifeGrid::new(5).unwrap();
    // i32::MAX = 5 * 429496729 + 2, i32::MIN = 5 * (-429496730) + 2
    g.put_pattern(i32::MAX, i32::MIN, vec![vec![true, true, false, true]]);
    assert_eq!(live_cells(&g), vec![(2, 0), (2, 2), (2, 3)]);
}

#[test]
fn later_write_wins_in_a_pattern_wider_than_the_grid() {
    let mut g = LifeGrid::new(2).unwrap();
    g.put_pattern(0, 0, vec![vec![true, false, false]]);
    // the third cell of the row lands on column 0 again
    assert!(!g.get(0, 0));
    assert!(!g.get(0, 1));
    let mut h = LifeGrid::new(2).unwrap();
    h.put_pattern(1, 0, vec![vec![false, false, true, true]]);
    // columns 1, 0, 1, 0
    assert!(h.get(0, 0));
    assert!(h.get(0, 1));
    assert!(!h.get(1, 0));
}

#[test]
fn later_row_wins_in_a_pattern_higher_than_the_grid() {
    let mut g = LifeGrid::new(2).unwrap();
    g.put_pattern(0, 1, vec![vec![true, true], vec![true, true], vec![false, true]]);
    // rows 1, 0, 1
    assert_eq!(live_cells(&g), vec![(0, 0), (0, 1), (1, 1)]);
}

#[test]
fn ragged_and_empty_patterns() {
    let mut g = LifeGrid::new(4).unwrap();
    g.put_pattern(0, 0, Vec::new());
    assert!(live_cells(&g).is_empty());
    g.put_pattern(2, 2, vec![Vec::new(), Vec::new()]);
    assert!(live_cells(&g).is_empty());
    g.put_pattern(1, 0, vec![vec![true], Vec::new(), vec![true, true, true]]);
    assert_eq!(live_cells(&g), vec![(0, 1), (2, 1), (2, 2), (2, 3)]);
}

#[test]
fn stamping_twice_is_stamping_once() {
    let patterns: Vec<Vec<Vec<bool>>> = vec![
        vec![vec![false, true, false], vec![false, false, true], vec![true, true, true]],
        vec![vec![true, false, false, true, false, true, true]],
        vec![vec![true], vec![false], vec![true], vec![true], vec![false]],
        vec![vec![true, false], vec![], vec![false, true, true, false, true]],
    ];
    for size in [1usize, 2, 3, 4, 8] {
        for pattern in patterns.iter() {
            for (x, y) in [(0, 0), (3, 1), (-1, -1), (7, -5)] {
                let mut once = LifeGrid::random(size).unwrap();
                let before = live_cells(&once);
                once.put_pattern(x, y, pattern.clone());
                let mut twice = LifeGrid::new(size).unwrap();
                for (r, c) in before {
                    twice.set(r, c, true);
                }
                twice.put_pattern(x, y, pattern.clone());
                twice.put_pattern(x, y, pattern.clone());
                assert!(same_cells(&once, &twice));
            }
        }
    }
}

#[test]
fn stamping_leaves_the_rest_alone() {
    let mut g = LifeGrid::new(10).unwrap();
    g.set(0, 0, true);
    g.set(9, 9, true);
    g.set(4, 7, true);
    g.lwss(2, 3);
    assert!(g.get(0, 0));
    assert!(g.get(9, 9));
    assert!(g.get(4, 7));
    assert_eq!(live_cells(&g).len(), 9 + 3);
}
