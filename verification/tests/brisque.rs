use native_iqa::brisque::features::{clamp_index, neighbor_index, Shift};
use native_iqa::brisque::mscn::reflect;

#[test]
fn reflect_inside_is_identity() {
    assert_eq!(reflect(0, 10), 0);
    assert_eq!(reflect(9, 10), 9);
}

#[test]
fn reflect_mirrors_without_repeating_edge() {
    assert_eq!(reflect(-1, 10), 1);
    assert_eq!(reflect(-2, 10), 2);
    assert_eq!(reflect(10, 10), 8);
    assert_eq!(reflect(11, 10), 7);
}

#[test]
fn reflect_clamps_negative_results() {
    assert_eq!(reflect(5, 1), 0);
}

#[test]
fn clamp_index_edges() {
    assert_eq!(clamp_index(-3, 5), 0);
    assert_eq!(clamp_index(2, 5), 2);
    assert_eq!(clamp_index(7, 5), 4);
}

#[test]
fn neighbours_inside_the_grid() {
    // 4 wide, 3 high; cell (1, 2) has flat index 6.
    assert_eq!(neighbor_index(4, 3, 1, 2, Shift::Horizontal), Some(7));
    assert_eq!(neighbor_index(4, 3, 1, 2, Shift::Vertical), Some(10));
    assert_eq!(neighbor_index(4, 3, 1, 2, Shift::Diagonal), Some(11));
    assert_eq!(neighbor_index(4, 3, 1, 2, Shift::AntiDiagonal), Some(9));
}

#[test]
fn neighbours_outside_the_grid() {
    assert_eq!(neighbor_index(4, 3, 0, 3, Shift::Horizontal), None);
    assert_eq!(neighbor_index(4, 3, 2, 0, Shift::Vertical), None);
    assert_eq!(neighbor_index(4, 3, 1, 3, Shift::Diagonal), None);
    assert_eq!(neighbor_index(4, 3, 1, 0, Shift::AntiDiagonal), None);
    assert_eq!(neighbor_index(4, 3, 1, 0, Shift::Vertical), Some(8));
}
