use ymir::sim::terrain::{Terrain, HEIGHT, WIDTH};
use ymir::terrain::Terrain as ViewerTerrain;

#[test]
fn neighbors_in_reading_order() {
    assert_eq!(
        Terrain::neighbors(10, 20),
        [(9, 19), (10, 19), (11, 19), (9, 20), (11, 20), (9, 21), (10, 21), (11, 21)]
    );
}

#[test]
fn neighbors_next_to_the_border() {
    let cells = ViewerTerrain::neighbors(1, 1);
    assert_eq!(cells[0], (0, 0));
    assert_eq!(cells[7], (2, 2));
    let far = Terrain::neighbors(WIDTH - 2, HEIGHT - 2);
    assert_eq!(far[7], (WIDTH - 1, HEIGHT - 1));
    for (i, a) in far.iter().enumerate() {
        assert_ne!(*a, (WIDTH - 2, HEIGHT - 2));
        for b in far[i + 1..].iter() {
            assert_ne!(a, b);
        }
    }
}

#[test]
fn corners_north_east_first() {
    assert_eq!(Terrain::corners(4, 7), [(5, 7), (5, 8), (4, 7), (4, 8)]);
    assert_eq!(
        Terrain::corners(WIDTH - 2, HEIGHT - 2),
        [(WIDTH - 1, HEIGHT - 2), (WIDTH - 1, HEIGHT - 1), (WIDTH - 2, HEIGHT - 2), (WIDTH - 2, HEIGHT - 1)]
    );
}

#[test]
fn far_edge_is_last_column_or_row() {
    assert!(Terrain::on_far_edge(WIDTH - 1, 0));
    assert!(Terrain::on_far_edge(0, HEIGHT - 1));
    assert!(Terrain::on_far_edge(WIDTH - 1, HEIGHT - 1));
    assert!(!Terrain::on_far_edge(WIDTH - 2, HEIGHT - 2));
    assert!(!Terrain::on_far_edge(0, 0));
    assert!(!Terrain::on_far_edge(WIDTH, 5));
    assert!(!Terrain::on_far_edge(usize::MAX, usize::MAX));
    assert!(ViewerTerrain::on_far_edge(239, 3));
    assert!(!ViewerTerrain::on_far_edge(1599, 3));
}
