use rust_pipes::space::{Direction, Node};

#[test]
fn step_moves_one_cell_along_each_axis() {
    let n = Node { x: 3, y: 4, z: 5 };
    assert_eq!(n.step(Direction::PosX), Node { x: 4, y: 4, z: 5 });
    assert_eq!(n.step(Direction::NegX), Node { x: 2, y: 4, z: 5 });
    assert_eq!(n.step(Direction::PosY), Node { x: 3, y: 5, z: 5 });
    assert_eq!(n.step(Direction::NegY), Node { x: 3, y: 3, z: 5 });
    assert_eq!(n.step(Direction::PosZ), Node { x: 3, y: 4, z: 6 });
    assert_eq!(n.step(Direction::NegZ), Node { x: 3, y: 4, z: 4 });
}

#[test]
fn opposite_reverses_and_is_an_involution() {
    let dirs = [
        Direction::PosX,
        Direction::NegX,
        Direction::PosY,
        Direction::NegY,
        Direction::PosZ,
        Direction::NegZ,
    ];
    for d in dirs {
        assert_ne!(d.opposite(), d);
        assert_eq!(d.opposite().opposite(), d);
        let n = Node { x: 10, y: 10, z: 10 };
        assert_eq!(n.step(d).step(d.opposite()), n);
    }
}

#[test]
fn index_and_from_index_roundtrip() {
    for i in 0..6u32 {
        assert_eq!(Direction::from_index(i).index(), i);
    }
}

#[test]
fn nth_other_enumerates_the_five_others_in_canonical_order() {
    // Others of PosY (canonical position 2) are the remaining five in
    // canonical order: PosX, NegX, NegY, PosZ, NegZ.
    let d = Direction::PosY;
    assert_eq!(d.nth_other(0), Direction::PosX);
    assert_eq!(d.nth_other(1), Direction::NegX);
    assert_eq!(d.nth_other(2), Direction::NegY);
    assert_eq!(d.nth_other(3), Direction::PosZ);
    assert_eq!(d.nth_other(4), Direction::NegZ);
    for i in 0..6u32 {
        let d = Direction::from_index(i);
        for t in 0..5u32 {
            assert_ne!(d.nth_other(t), d);
        }
    }
}
