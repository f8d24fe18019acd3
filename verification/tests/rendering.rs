use life::{write_dashes, LifeGrid};

#[test]
fn dashes_between_plus_signs() {
    let mut s = String::new();
    write_dashes(0, &mut s);
    assert_eq!(s, "++\n");
    let mut s = String::new();
    write_dashes(1, &mut s);
    assert_eq!(s, "+-+\n");
    let mut s = String::new();
    write_dashes(5, &mut s);
    assert_eq!(s, "+-----+\n");
}

#[test]
fn dashes_are_appended() {
    let mut s = String::from("abc\n");
    write_dashes(3, &mut s);
    assert_eq!(s, "abc\n+---+\n");
    write_dashes(2, &mut s);
    assert_eq!(s, "abc\n+---+\n+--+\n");
}

#[test]
fn dead_grid_picture() {
    assert_eq!(LifeGrid::new(1).unwrap().render(), "+-+\n| |\n+-+\n");
    assert_eq!(LifeGrid::new(2).unwrap().render(), "+--+\n|  |\n|  |\n+--+\n");
    assert_eq!(LifeGrid::new(3).unwrap().render(), "+---+\n|   |\n|   |\n|   |\n+---+\n");
}

#[test]
fn dead_grid_picture_of_any_side() {
    for n in 1..=25usize {
        let text = LifeGrid::new(n).unwrap().render();
        let rule = format!("+{}+", "-".repeat(n));
        let blank = format!("|{}|", " ".repeat(n));
        let lines: Vec<&str> = text.split('\n').collect();
        // the text ends with a line end, so the last piece is empty
        assert_eq!(lines.len(), n + 3);
        assert_eq!(lines[0], rule);
        assert_eq!(lines[n + 1], rule);
        assert_eq!(lines[n + 2], "");
        for line in &lines[1..=n] {
            assert_eq!(*line, blank);
        }
        assert_eq!(text.len(), (n + 2) * (n + 3));
    }
}

#[test]
fn live_cells_are_drawn_as_x() {
    let mut g = LifeGrid::new(4).unwrap();
    g.set(0, 0, true);
    g.set(1, 3, true);
    g.set(3, 1, true);
    g.set(3, 2, true);
    assert_eq!(g.render(), "+----+\n|x   |\n|   x|\n|    |\n| xx |\n+----+\n");
}

#[test]
fn full_grid_picture() {
    let mut g = LifeGrid::new(2).unwrap();
    for x in 0..2 {
        for y in 0..2 {
            g.set(x, y, true);
        }
    }
    assert_eq!(g.render(), "+--+\n|xx|\n|xx|\n+--+\n");
}

#[test]
fn spaceship_on_the_starting_grid() {
    let mut g = LifeGrid::new(20).unwrap();
    g.lwss(5, 5);
    let text = g.render();
    let lines: Vec<&str> = text.lines().collect();
    assert_eq!(lines.len(), 22);
    assert_eq!(lines[0], "+--------------------+");
    assert_eq!(lines[6], "|      xxxx          |");
    assert_eq!(lines[7], "|     x   x          |");
    assert_eq!(lines[8], "|         x          |");
    assert_eq!(lines[9], "|     x  x           |");
    assert_eq!(lines[10], "|                    |");
    assert_eq!(lines[21], "+--------------------+");
}
