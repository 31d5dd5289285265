use life_grid::cells::{Cell, Grid, Grid_color};

const LIVE: [u8; 4] = [0, 0xff, 0, 0xf0];
const DEAD: [u8; 4] = [0, 0xff, 0x01, 0x05];

fn live_cells(g: &Grid, h: usize, w: usize) -> Vec<(usize, usize)> {
    let mut out = Vec::new();
    for i in 0..h {
        for j in 0..w {
            if g.get_cell(i, j).is_alive() {
                out.push((i, j));
            }
        }
    }
    out
}

#[test]
fn cell_flag_and_color() {
    let mut c = Cell::default();
    assert!(!c.is_alive());
    c.set_alive();
    assert!(c.is_alive());
    c.set_color([1, 2, 3, 4]);
    assert!(c.is_alive());
    c.set_dead();
    assert!(!c.is_alive());
    assert_eq!(c.color, [1, 2, 3, 4]);
}

#[test]
fn new_grid_is_all_dead() {
    let g = Grid::new(7, 4, LIVE);
    assert_eq!(live_cells(&g, 4, 7), vec![]);
}

#[test]
fn color_accessors() {
    let mut g = Grid::new(3, 3, LIVE);
    g.set_cells_color([9, 8, 7, 6]);
    {
        let handle = Grid_color { owner: &g };
        assert_eq!(handle.get_mut_color(), [9, 8, 7, 6]);
    }
    let c = g.get_mut_cells_color();
    c[0] = 1;
    let handle = Grid_color { owner: &g };
    assert_eq!(handle.get_mut_color(), [1, 8, 7, 6]);
}

#[test]
fn paint_single_cell() {
    let mut g = Grid::new(5, 5, LIVE);
    g.set_pixel_alive(3, 1);
    assert_eq!(live_cells(&g, 5, 5), vec![(1, 3)]);
    g.set_pixel_dead(3, 1);
    assert_eq!(live_cells(&g, 5, 5), vec![]);
}

#[test]
fn toroidal_wrap_blinker_across_seam() {
    // A horizontal blinker centered on the corner cell, spanning the
    // column seam: columns 4, 0, 1 of row 0 on a 5x5 torus.
    let mut g = Grid::new(5, 5, LIVE);
    g.set_pixel_alive(4, 0);
    g.set_pixel_alive(0, 0);
    g.set_pixel_alive(1, 0);
    g.check_rules();
    // It flips to a vertical blinker spanning the row seam.
    assert_eq!(live_cells(&g, 5, 5), vec![(0, 0), (1, 0), (4, 0)]);
}

#[test]
fn birth_on_exactly_three_neighbors() {
    // Three live cells around the dead center (2,2): it is born.
    let mut g = Grid::new(5, 5, LIVE);
    g.set_pixel_alive(1, 1);
    g.set_pixel_alive(3, 1);
    g.set_pixel_alive(1, 3);
    g.check_rules();
    assert!(g.get_cell(2, 2).is_alive());
}

#[test]
fn no_birth_on_two_or_four_neighbors() {
    // Two diagonal neighbors: center stays dead.
    let mut g = Grid::new(5, 5, LIVE);
    g.set_pixel_alive(1, 1);
    g.set_pixel_alive(3, 3);
    g.check_rules();
    assert!(!g.get_cell(2, 2).is_alive());

    // Four neighbors: center stays dead.
    let mut g = Grid::new(5, 5, LIVE);
    g.set_pixel_alive(1, 1);
    g.set_pixel_alive(3, 1);
    g.set_pixel_alive(1, 3);
    g.set_pixel_alive(3, 3);
    g.check_rules();
    assert!(!g.get_cell(2, 2).is_alive());
}

#[test]
fn survival_on_two_or_three_neighbors_only() {
    // One neighbor: the live center dies.
    let mut g = Grid::new(7, 7, LIVE);
    g.set_pixel_alive(3, 3);
    g.set_pixel_alive(2, 2);
    g.check_rules();
    assert!(!g.get_cell(3, 3).is_alive());

    // Two neighbors: it survives.
    let mut g = Grid::new(7, 7, LIVE);
    g.set_pixel_alive(3, 3);
    g.set_pixel_alive(2, 2);
    g.set_pixel_alive(2, 4);
    g.check_rules();
    assert!(g.get_cell(3, 3).is_alive());

    // Three neighbors: it survives.
    let mut g = Grid::new(7, 7, LIVE);
    g.set_pixel_alive(3, 3);
    g.set_pixel_alive(2, 2);
    g.set_pixel_alive(2, 4);
    g.set_pixel_alive(4, 2);
    g.check_rules();
    assert!(g.get_cell(3, 3).is_alive());

    // Four neighbors: it dies.
    let mut g = Grid::new(7, 7, LIVE);
    g.set_pixel_alive(3, 3);
    g.set_pixel_alive(2, 2);
    g.set_pixel_alive(2, 4);
    g.set_pixel_alive(4, 2);
    g.set_pixel_alive(4, 4);
    g.check_rules();
    assert!(!g.get_cell(3, 3).is_alive());

    // No neighbors: it dies.
    let mut g = Grid::new(7, 7, LIVE);
    g.set_pixel_alive(3, 3);
    g.check_rules();
    assert!(!g.get_cell(3, 3).is_alive());
}

#[test]
fn lone_cell_on_one_by_one_torus_dies() {
    // On a 1x1 torus all eight neighbor coordinates wrap back to the
    // cell itself, so a live cell counts eight live neighbors and dies.
    let mut g = Grid::new(1, 1, LIVE);
    g.set_pixel_alive(0, 0);
    g.check_rules();
    assert!(!g.get_cell(0, 0).is_alive());
}

#[test]
fn block_is_still_life() {
    let mut g = Grid::new(4, 4, LIVE);
    g.set_pixel_alive(1, 1);
    g.set_pixel_alive(2, 1);
    g.set_pixel_alive(1, 2);
    g.set_pixel_alive(2, 2);
    let expected = vec![(1, 1), (1, 2), (2, 1), (2, 2)];
    for _ in 0..5 {
        g.check_rules();
        assert_eq!(live_cells(&g, 4, 4), expected);
    }
}

#[test]
fn blinker_oscillates_with_period_two() {
    let mut g = Grid::new(5, 5, LIVE);
    g.set_pixel_alive(1, 2);
    g.set_pixel_alive(2, 2);
    g.set_pixel_alive(3, 2);
    g.check_rules();
    assert_eq!(live_cells(&g, 5, 5), vec![(1, 2), (2, 2), (3, 2)]);
    g.check_rules();
    assert_eq!(live_cells(&g, 5, 5), vec![(2, 1), (2, 2), (2, 3)]);
}

#[test]
fn glider_advances_simultaneously() {
    // A glider distinguishes simultaneous update from in-place update:
    // a naive pass that wrote into the buffer it reads would miscount
    // the neighbors of cells visited later.
    let mut g = Grid::new(6, 6, LIVE);
    g.set_pixel_alive(1, 0);
    g.set_pixel_alive(2, 1);
    g.set_pixel_alive(0, 2);
    g.set_pixel_alive(1, 2);
    g.set_pixel_alive(2, 2);
    g.check_rules();
    assert_eq!(live_cells(&g, 6, 6), vec![(1, 0), (1, 2), (2, 1), (2, 2), (3, 1)]);
}

#[test]
fn set_blank_is_idempotent() {
    let mut g = Grid::new(8, 8, LIVE);
    g.randomize();
    g.set_blank();
    let once = live_cells(&g, 8, 8);
    assert_eq!(once, vec![]);
    let mut first = vec![0u8; 8 * 8 * 4];
    g.draw(&mut first);
    g.set_blank();
    assert_eq!(live_cells(&g, 8, 8), vec![]);
    let mut second = vec![0u8; 8 * 8 * 4];
    g.draw(&mut second);
    assert_eq!(first, second);
}

#[test]
fn render_single_live_cell() {
    let mut g = Grid::new(3, 3, LIVE);
    g.set_pixel_alive(2, 1);
    let mut screen = vec![0u8; 3 * 3 * 4];
    g.draw(&mut screen);
    let k0: usize = 1 * 3 + 2;
    for k in 0..9 {
        let px = &screen[4 * k..4 * k + 4];
        if k == k0 {
            assert_eq!(px, &LIVE);
        } else {
            assert_eq!(px, &DEAD);
        }
    }
}

#[test]
fn advance_stamps_fill_color() {
    let mut g = Grid::new(4, 4, [9, 9, 9, 9]);
    g.set_pixel_alive(1, 1);
    g.set_pixel_alive(2, 1);
    g.set_pixel_alive(1, 2);
    g.set_pixel_alive(2, 2);
    g.check_rules();
    let mut screen = vec![0u8; 4 * 4 * 4];
    g.draw(&mut screen);
    let k: usize = 1 * 4 + 1;
    assert_eq!(&screen[4 * k..4 * k + 4], &[9, 9, 9, 9]);
}

#[test]
fn randomize_stamps_fill_color_and_is_roughly_fair() {
    let mut g = Grid::new(100, 100, [7, 7, 7, 7]);
    g.randomize();
    let live: usize = live_cells(&g, 100, 100).len();
    // An unbiased coin over 10000 cells: allow a wide tolerance band.
    assert!(live > 3500 && live < 6500, "live fraction out of range: {}", live);
    let mut screen = vec![0u8; 100 * 100 * 4];
    g.draw(&mut screen);
    let (i, j) = live_cells(&g, 100, 100)[0];
    let k: usize = i * 100 + j;
    assert_eq!(&screen[4 * k..4 * k + 4], &[7, 7, 7, 7]);
}
