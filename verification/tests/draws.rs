use life::{GridError, LifeGrid};

fn live_cells(g: &LifeGrid) -> Vec<(i32, i32)> {
    let mut out = Vec::new();
    for x in 0..g.sizei() {
        for y in 0..g.sizei() {
            if g.get(x, y) {
                out.push((x, y));
            }
        }
    }
    out
}

#[test]
fn all_false_draws_give_the_dead_grid() {
    for size in 1..=12usize {
        let draws = vec![false; size * size];
        let g = LifeGrid::from_draws(size, &draws).unwrap();
        let dead = LifeGrid::new(size).unwrap();
        assert_eq!(g.size(), size);
        assert!(live_cells(&g).is_empty());
        assert_eq!(g.render(), dead.render());
    }
}

#[test]
fn all_true_draws_give_the_full_grid() {
    for size in 1..=6usize {
        let draws = vec![true; size * size];
        let g = LifeGrid::from_draws(size, &draws).unwrap();
        assert_eq!(live_cells(&g).len(), size * size);
    }
}

#[test]
fn draws_land_row_by_row() {
    let draws = vec![
        true, false, false, //
        false, false, true, //
        false, true, true,
    ];
    let g = LifeGrid::from_draws(3, &draws).unwrap();
    assert_eq!(live_cells(&g), vec![(0, 0), (1, 2), (2, 1), (2, 2)]);
    assert_eq!(g.render(), "+---+\n|x  |\n|  x|\n| xx|\n+---+\n");
}

#[test]
fn each_cell_holds_its_own_draw() {
    for size in 1..=7usize {
        for k in 0..size * size {
            let mut draws = vec![false; size * size];
            draws[k] = true;
            let g = LifeGrid::from_draws(size, &draws).unwrap();
            assert_eq!(live_cells(&g), vec![((k / size) as i32, (k % size) as i32)]);
            for x in 0..size {
                for y in 0..size {
                    assert_eq!(g.get(x as i32, y as i32), draws[x * size + y]);
                }
            }
        }
    }
}

#[test]
fn the_second_draw_is_the_second_cell_of_the_top_row() {
    let g = LifeGrid::from_draws(2, &vec![false, true, false, false]).unwrap();
    assert!(g.get(0, 1));
    assert!(!g.get(1, 0));
    let h = LifeGrid::from_draws(2, &vec![false, false, true, false]).unwrap();
    assert!(h.get(1, 0));
    assert!(!h.get(0, 1));
}

#[test]
fn one_draw_for_a_grid_of_one_cell() {
    assert!(LifeGrid::from_draws(1, &vec![true]).unwrap().get(0, 0));
    assert!(!LifeGrid::from_draws(1, &vec![false]).unwrap().get(0, 0));
}

#[test]
fn no_draws_for_no_cells() {
    assert!(matches!(LifeGrid::from_draws(0, &Vec::new()), Err(GridError::ZeroSize)));
}

#[test]
fn a_grid_from_its_own_cells_is_the_same_grid() {
    let g = LifeGrid::random(9).unwrap();
    let mut draws = Vec::new();
    for x in 0..9 {
        for y in 0..9 {
            draws.push(g.get(x, y));
        }
    }
    let h = LifeGrid::from_draws(9, &draws).unwrap();
    assert_eq!(h.render(), g.render());
}
