use gravity_legacy::{LevelTile, walls_of_level};
use gravity_legacy::{
    BodyKind, GridCoords, Plate, WallRect, compact_walls, contains_cell, plates_of_row, spawn_wall_collision, wall_collider,
};

fn cells(list: &[(i32, i32)]) -> Vec<GridCoords> {
    list.iter().map(|&(x, y)| GridCoords { x, y }).collect()
}

fn block(w: i32, h: i32) -> Vec<GridCoords> {
    let mut v = Vec::new();
    for y in 0..h {
        for x in 0..w {
            v.push(GridCoords { x, y });
        }
    }
    v
}

fn in_rect(r: &WallRect, x: i32, y: i32) -> bool {
    r.left <= x && x <= r.right && r.bottom <= y && y <= r.top
}

fn wall(walls: &[GridCoords], width: i32, height: i32, x: i32, y: i32) -> bool {
    x >= 0 && x < width && y >= 0 && y < height && walls.contains(&GridCoords { x, y })
}

fn same_run(walls: &[GridCoords], width: i32, height: i32, r: &WallRect, y: i32) -> bool {
    (r.left..=r.right).all(|x| wall(walls, width, height, x, y))
        && !wall(walls, width, height, r.left - 1, y)
        && !wall(walls, width, height, r.right + 1, y)
}

fn assert_exact_cover(walls: &[GridCoords], width: i32, height: i32, rects: &[WallRect]) {
    for r in rects {
        for y in r.bottom..=r.top {
            assert!(!wall(walls, width, height, r.left - 1, y) && !wall(walls, width, height, r.right + 1, y));
        }
        assert!(!same_run(walls, width, height, r, r.bottom - 1), "{:?} could grow down", r);
        assert!(!same_run(walls, width, height, r, r.top + 1), "{:?} could grow up", r);
    }
    for y in -2..height + 2 {
        for x in -2..width + 2 {
            let wall = x >= 0 && x < width && y >= 0 && y < height && walls.contains(&GridCoords { x, y });
            let n = rects.iter().filter(|r| in_rect(r, x, y)).count();
            assert_eq!(n, if wall { 1 } else { 0 }, "cell ({}, {})", x, y);
        }
    }
}

#[test]
fn block_three_by_two_is_one_rect() {
    let walls = block(3, 2);
    let rects = compact_walls(&walls, 3, 2);
    assert_eq!(rects, vec![WallRect { left: 0, right: 2, bottom: 0, top: 1 }]);
    let colliders = spawn_wall_collision(&walls, 3, 2, 16);
    assert_eq!(colliders.len(), 1);
    let c = colliders[0];
    assert_eq!(((c.max_x - c.min_x) / 2, (c.max_y - c.min_y) / 2), (24, 16));
    assert_eq!(((c.min_x + c.max_x) / 2, (c.min_y + c.max_y) / 2), (24, 16));
}

#[test]
fn block_in_larger_grid_is_one_rect() {
    let walls = block(3, 2);
    let rects = compact_walls(&walls, 8, 5);
    assert_eq!(rects, vec![WallRect { left: 0, right: 2, bottom: 0, top: 1 }]);
}

#[test]
fn empty_grid_gives_no_rects() {
    assert!(compact_walls(&Vec::new(), 10, 10).is_empty());
    assert!(compact_walls(&block(3, 3), 0, 0).is_empty());
}

#[test]
fn single_cell_gives_unit_rect() {
    let walls = cells(&[(4, 7)]);
    let rects = compact_walls(&walls, 10, 10);
    assert_eq!(rects, vec![WallRect { left: 4, right: 4, bottom: 7, top: 7 }]);
}

#[test]
fn cells_outside_grid_are_ignored() {
    let walls = cells(&[(-1, 0), (0, 0), (5, 0), (0, 5)]);
    let rects = compact_walls(&walls, 5, 5);
    assert_eq!(rects, vec![WallRect { left: 0, right: 0, bottom: 0, top: 0 }]);
}

#[test]
fn run_touching_right_edge_is_closed() {
    let walls = cells(&[(2, 0), (3, 0), (4, 0)]);
    assert_eq!(plates_of_row(&walls, 5, 0), vec![Plate { left: 2, right: 4 }]);
}

#[test]
fn row_plates_are_maximal_runs() {
    let walls = cells(&[(0, 1), (1, 1), (3, 1), (5, 1), (6, 1), (7, 1), (2, 0)]);
    assert_eq!(
        plates_of_row(&walls, 8, 1),
        vec![Plate { left: 0, right: 1 }, Plate { left: 3, right: 3 }, Plate { left: 5, right: 7 }]
    );
    assert_eq!(plates_of_row(&walls, 8, 0), vec![Plate { left: 2, right: 2 }]);
    assert!(plates_of_row(&walls, 8, 2).is_empty());
}

#[test]
fn differing_plates_start_new_rects() {
    // an L shape: a wide floor with a one-cell column on its left end
    let walls = cells(&[(0, 0), (1, 0), (2, 0), (0, 1), (0, 2)]);
    let mut rects = compact_walls(&walls, 3, 3);
    rects.sort_by_key(|r| (r.bottom, r.left));
    assert_eq!(
        rects,
        vec![WallRect { left: 0, right: 2, bottom: 0, top: 0 }, WallRect { left: 0, right: 0, bottom: 1, top: 2 }]
    );
}

#[test]
fn irregular_pattern_is_covered_exactly_once() {
    let rows = [
        "##..####..",
        "##..#..#..",
        "########.#",
        "...#...#.#",
        "#..#####.#",
        "##########",
    ];
    let mut walls = Vec::new();
    for (y, row) in rows.iter().enumerate() {
        for (x, ch) in row.chars().enumerate() {
            if ch == '#' {
                walls.push(GridCoords { x: x as i32, y: y as i32 });
            }
        }
    }
    let rects = compact_walls(&walls, 10, 6);
    assert_exact_cover(&walls, 10, 6, &rects);
    // identical stacked plates merge
    assert!(rects.contains(&WallRect { left: 9, right: 9, bottom: 2, top: 4 }));
}

#[test]
fn checkerboard_is_covered_exactly_once() {
    let mut walls = Vec::new();
    for y in 0..7 {
        for x in 0..9 {
            if (x + y) % 2 == 0 || x % 3 == 0 {
                walls.push(GridCoords { x, y });
            }
        }
    }
    let rects = compact_walls(&walls, 9, 7);
    assert_exact_cover(&walls, 9, 7, &rects);
}

#[test]
fn wall_lookup_finds_listed_cells() {
    let walls = cells(&[(1, 2), (3, 4)]);
    assert!(contains_cell(&walls, 3, 4));
    assert!(!contains_cell(&walls, 4, 3));
    assert!(!contains_cell(&Vec::new(), 0, 0));
}

#[test]
fn collider_of_rect_in_world_units() {
    let c = wall_collider(WallRect { left: 2, right: 4, bottom: 1, top: 1 }, 16);
    assert_eq!((c.min_x, c.min_y, c.max_x, c.max_y), (32, 16, 80, 32));
}

#[test]
fn walls_are_grouped_by_level() {
    let tiles = vec![
        LevelTile { coords: GridCoords { x: 0, y: 0 }, level: 7 },
        LevelTile { coords: GridCoords { x: 1, y: 0 }, level: 8 },
        LevelTile { coords: GridCoords { x: 2, y: 3 }, level: 7 },
    ];
    assert_eq!(walls_of_level(&tiles, 7), cells(&[(0, 0), (2, 3)]));
    assert_eq!(walls_of_level(&tiles, 8), cells(&[(1, 0)]));
    assert!(walls_of_level(&tiles, 9).is_empty());
    let colliders = spawn_wall_collision(&walls_of_level(&tiles, 7), 4, 4, 8);
    assert_eq!(colliders.len(), 2);
}

#[test]
fn wall_colliders_are_static_and_frictionless() {
    let colliders = spawn_wall_collision(&block(2, 2), 4, 4, 16);
    assert_eq!(colliders.len(), 1);
    assert_eq!(colliders[0].rigid_body, BodyKind::Static);
    assert_eq!(colliders[0].friction, 0);
    assert_eq!(gravity_legacy::WALL_FRICTION, 0);
}

#[test]
fn wall_order_does_not_change_rects() {
    let walls = cells(&[(0, 0), (1, 0), (2, 0), (0, 1), (0, 2), (4, 1), (4, 2), (3, 2), (4, 0)]);
    let mut reversed = walls.clone();
    reversed.reverse();
    reversed.push(GridCoords { x: 1, y: 0 });
    let mut a = compact_walls(&walls, 5, 3);
    let mut b = compact_walls(&reversed, 5, 3);
    a.sort_by_key(|r| (r.bottom, r.left));
    b.sort_by_key(|r| (r.bottom, r.left));
    assert_eq!(a, b);
    assert_exact_cover(&walls, 5, 3, &a);
}

#[test]
fn empty_or_negative_grid_gives_no_rects() {
    assert!(compact_walls(&block(2, 2), -3, 4).is_empty());
    assert!(compact_walls(&block(2, 2), 4, -1).is_empty());
    assert!(plates_of_row(&block(2, 2), -1, 0).is_empty());
}

