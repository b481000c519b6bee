use rust_pipes::grid::Grid;
use rust_pipes::space::{Direction, Node};

#[test]
fn fresh_grid_is_free_inside_and_blocked_outside() {
    let g = Grid::new(3, 4, 5);
    assert!(g.is_free(Node { x: 0, y: 0, z: 0 }));
    assert!(g.is_free(Node { x: 2, y: 3, z: 4 }));
    assert!(!g.is_free(Node { x: 3, y: 0, z: 0 }));
    assert!(!g.is_free(Node { x: 0, y: 4, z: 0 }));
    assert!(!g.is_free(Node { x: 0, y: 0, z: 5 }));
    assert!(!g.is_free(Node { x: -1, y: 0, z: 0 }));
}

#[test]
fn occupy_blocks_exactly_one_cell() {
    let mut g = Grid::new(3, 3, 3);
    let n = Node { x: 1, y: 1, z: 1 };
    g.occupy(n);
    assert!(!g.is_free(n));
    for x in 0..3 {
        for y in 0..3 {
            for z in 0..3 {
                let m = Node { x, y, z };
                if m != n {
                    assert!(g.is_free(m));
                }
            }
        }
    }
}

#[test]
fn neighbors_free_reports_open_directions_in_canonical_order() {
    let mut g = Grid::new(3, 3, 3);
    let c = Node { x: 1, y: 1, z: 1 };
    let all = g.neighbors_free(c);
    assert_eq!(all.len(), 6);
    assert_eq!(all[0], (Direction::PosX, Node { x: 2, y: 1, z: 1 }));
    assert_eq!(all[1], (Direction::NegX, Node { x: 0, y: 1, z: 1 }));
    g.occupy(Node { x: 2, y: 1, z: 1 });
    let rest = g.neighbors_free(c);
    assert_eq!(rest.len(), 5);
    assert!(rest.iter().all(|&(d, _)| d != Direction::PosX));
}

#[test]
fn corner_cell_has_three_free_neighbors() {
    let g = Grid::new(2, 2, 2);
    let corner = Node { x: 0, y: 0, z: 0 };
    assert_eq!(g.neighbors_free(corner).len(), 3);
}

#[test]
fn single_cell_grid_has_no_free_neighbors() {
    let g = Grid::new(1, 1, 1);
    assert_eq!(g.neighbors_free(Node { x: 0, y: 0, z: 0 }).len(), 0);
}
