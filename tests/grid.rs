use life_grid::Grid;

fn plain(width: usize, height: usize) -> Grid {
    let mut g = Grid::new(width, height);
    g.set_alive_symbol('#');
    g.set_dead_symbol('.');
    g
}

fn cell(g: &Grid, width: usize, x: usize, y: usize) -> char {
    let text = g.render();
    let chars: Vec<char> = text.chars().collect();
    chars[y * (width + 1) + x]
}

#[test]
fn new_grid_is_all_dead() {
    let g = plain(3, 2);
    assert_eq!(g.render(), "...\n...\n");
}

#[test]
fn default_glyphs() {
    let mut g = Grid::new(2, 1);
    g.set_alive(1, 0);
    assert_eq!(g.render(), "\u{1F311}\u{1F47D}\n");
}

#[test]
fn zero_sized_grid_renders_nothing() {
    let mut g = plain(0, 0);
    g.set_alive(0, 0);
    g.update();
    assert_eq!(g.render(), "");
    let mut wide = plain(3, 0);
    wide.update();
    assert_eq!(wide.render(), "");
    let tall = plain(0, 2);
    assert_eq!(tall.render(), "\n\n");
}

#[test]
fn set_alive_marks_one_cell() {
    let mut g = plain(3, 2);
    g.set_alive(2, 1);
    assert_eq!(g.render(), "...\n..#\n");
}

#[test]
fn symbols_change_only_rendering() {
    let mut g = plain(2, 1);
    g.set_alive(0, 0);
    g.set_alive_symbol('o');
    assert_eq!(g.render(), "o.\n");
    g.set_dead_symbol('-');
    assert_eq!(g.render(), "o-\n");
    assert_eq!(g.count_alive_neighbors(1, 0), 1);
}

#[test]
fn lone_corner_counts_no_wrapped_neighbours() {
    let (w, h) = (5usize, 4usize);
    for &(cx, cy) in &[(0usize, 0usize), (w - 1, 0), (0, h - 1), (w - 1, h - 1)] {
        let mut g = plain(w, h);
        g.set_alive(cx, cy);
        for y in 0..h {
            for x in 0..w {
                let touches = (x, y) != (cx, cy)
                    && (x as i64 - cx as i64).abs() <= 1
                    && (y as i64 - cy as i64).abs() <= 1;
                let expected = if touches { 1 } else { 0 };
                assert_eq!(g.count_alive_neighbors(x, y), expected, "corner ({cx},{cy}) cell ({x},{y})");
            }
        }
    }
}

#[test]
fn corner_of_full_grid_has_three_neighbours() {
    let mut g = plain(3, 3);
    for y in 0..3 {
        for x in 0..3 {
            g.set_alive(x, y);
        }
    }
    assert_eq!(g.count_alive_neighbors(0, 0), 3);
    assert_eq!(g.count_alive_neighbors(2, 2), 3);
    assert_eq!(g.count_alive_neighbors(1, 0), 5);
    assert_eq!(g.count_alive_neighbors(0, 1), 5);
    assert_eq!(g.count_alive_neighbors(1, 1), 8);
}

#[test]
fn neighbours_of_positions_off_the_grid() {
    let mut g = plain(3, 3);
    g.set_alive(2, 1);
    assert_eq!(g.count_alive_neighbors(3, 1), 1);
    assert_eq!(g.count_alive_neighbors(4, 1), 0);
    assert_eq!(g.count_alive_neighbors(usize::MAX, usize::MAX), 0);
}

#[test]
fn block_is_still_life() {
    let mut g = plain(4, 4);
    for &(x, y) in &[(1, 1), (2, 1), (1, 2), (2, 2)] {
        g.set_alive(x, y);
    }
    let before = g.render();
    g.update();
    assert_eq!(g.render(), before);
    assert_eq!(before, "....\n.##.\n.##.\n....\n");
}

#[test]
fn dead_cell_with_three_neighbours_is_born() {
    let mut g = plain(5, 5);
    g.set_alive(1, 1);
    g.set_alive(3, 1);
    g.set_alive(2, 3);
    assert_eq!(g.count_alive_neighbors(2, 2), 3);
    g.update();
    assert_eq!(cell(&g, 5, 2, 2), '#');
}

#[test]
fn dead_cell_with_two_or_four_neighbours_stays_dead() {
    let mut two = plain(5, 5);
    two.set_alive(1, 1);
    two.set_alive(3, 3);
    assert_eq!(two.count_alive_neighbors(2, 2), 2);
    two.update();
    assert_eq!(cell(&two, 5, 2, 2), '.');

    let mut four = plain(5, 5);
    for &(x, y) in &[(1, 1), (3, 1), (1, 3), (3, 3)] {
        four.set_alive(x, y);
    }
    assert_eq!(four.count_alive_neighbors(2, 2), 4);
    four.update();
    assert_eq!(cell(&four, 5, 2, 2), '.');
}

#[test]
fn live_cell_fate_by_neighbour_count() {
    let ring = [(0, 0), (1, 0), (2, 0), (0, 1), (2, 1), (0, 2), (1, 2), (2, 2)];
    for n in 0..=8usize {
        let mut g = plain(3, 3);
        g.set_alive(1, 1);
        for &(x, y) in ring.iter().take(n) {
            g.set_alive(x, y);
        }
        assert_eq!(g.count_alive_neighbors(1, 1) as usize, n);
        g.update();
        let expected = if n == 2 || n == 3 { '#' } else { '.' };
        assert_eq!(cell(&g, 3, 1, 1), expected, "{n} neighbours");
    }
}

#[test]
fn blinker_oscillates() {
    let mut g = plain(5, 5);
    g.set_alive(1, 2);
    g.set_alive(2, 2);
    g.set_alive(3, 2);
    g.update();
    assert_eq!(g.render(), ".....\n..#..\n..#..\n..#..\n.....\n");
    g.update();
    assert_eq!(g.render(), ".....\n.....\n.###.\n.....\n.....\n");
}

#[test]
fn render_shape_survives_generations() {
    let (w, h) = (7usize, 4usize);
    let mut g = plain(w, h);
    g.seed();
    for _ in 0..5 {
        let text = g.render();
        let lines: Vec<&str> = text.split_terminator('\n').collect();
        assert_eq!(lines.len(), h);
        for line in lines {
            assert_eq!(line.chars().count(), w);
        }
        assert!(text.ends_with('\n'));
        g.update();
    }
}

#[test]
fn out_of_range_activation_is_ignored() {
    let mut g = plain(3, 2);
    g.set_alive(3, 0);
    g.set_alive(0, 2);
    g.set_alive(100, 100);
    g.set_alive(usize::MAX, 1);
    assert_eq!(g.render(), "...\n...\n");
    g.update();
    assert_eq!(g.render(), "...\n...\n");
    g.set_alive(1, 1);
    assert_eq!(g.render(), "...\n.#.\n");
}

#[test]
fn rendering_twice_gives_the_same_text() {
    let mut g = plain(4, 3);
    g.set_alive(0, 0);
    g.set_alive(3, 2);
    let first = g.render();
    let second = g.render();
    assert_eq!(first, second);
    assert_eq!(first, "#...\n....\n...#\n");
}

#[test]
fn seed_from_marks_drawn_cells() {
    let mut g = plain(3, 2);
    g.set_alive(0, 0);
    let draws = vec![vec![false, true], vec![true, false, true, true], vec![true]];
    g.seed_from(&draws);
    assert_eq!(g.render(), "##.\n#.#\n");
}

#[test]
fn seed_keeps_live_cells_and_shape() {
    let mut g = plain(4, 3);
    for y in 0..3 {
        for x in 0..4 {
            g.set_alive(x, y);
        }
    }
    g.seed();
    assert_eq!(g.render(), "####\n####\n####\n");

    let mut fresh = plain(6, 5);
    fresh.seed();
    let text = fresh.render();
    assert_eq!(text.chars().count(), 5 * 7);
    assert!(text.chars().all(|c| c == '#' || c == '.' || c == '\n'));
}
