use ymir::sim::terrain::Terrain;

#[test]
fn erosion_around_an_inner_cell() {
    assert_eq!(
        Terrain::erosion_cells(5, 5, 2),
        vec![(4, 4), (5, 4), (6, 4), (4, 5), (5, 5), (6, 5), (4, 6), (5, 6), (6, 6)]
    );
}

#[test]
fn erosion_clipped_at_the_origin_corner() {
    assert_eq!(Terrain::erosion_cells(0, 0, 2), vec![(0, 0), (1, 0), (0, 1), (1, 1)]);
}

#[test]
fn erosion_clipped_at_the_far_corner() {
    assert_eq!(
        Terrain::erosion_cells(1599, 799, 4),
        vec![
            (1597, 796),
            (1598, 796),
            (1599, 796),
            (1596, 797),
            (1597, 797),
            (1598, 797),
            (1599, 797),
            (1596, 798),
            (1597, 798),
            (1598, 798),
            (1599, 798),
            (1596, 799),
            (1597, 799),
            (1598, 799),
            (1599, 799),
        ]
    );
}

#[test]
fn erosion_of_the_simulation_radius() {
    let cells = Terrain::erosion_cells(100, 50, 4);
    assert_eq!(cells.len(), 45);
    assert_eq!(cells[0], (98, 47));
    assert_eq!(cells[44], (102, 53));
    assert!(cells.contains(&(100, 50)));
    assert!(!cells.contains(&(104, 50)));
    assert!(!cells.contains(&(100, 46)));
    for w in cells.windows(2) {
        assert!((w[0].1, w[0].0) < (w[1].1, w[1].0));
    }
    for &(x, y) in cells.iter() {
        let (dx, dy) = (x.abs_diff(100), y.abs_diff(50));
        assert!(dx * dx + dy * dy < 16);
    }
}

#[test]
fn erosion_with_zero_radius_or_off_the_grid() {
    assert!(Terrain::erosion_cells(10, 10, 0).is_empty());
    assert!(Terrain::erosion_cells(1700, 5, 4).is_empty());
    assert_eq!(
        Terrain::erosion_cells(1601, 5, 4),
        vec![
            (1599, 2),
            (1598, 3),
            (1599, 3),
            (1598, 4),
            (1599, 4),
            (1598, 5),
            (1599, 5),
            (1598, 6),
            (1599, 6),
            (1598, 7),
            (1599, 7),
            (1599, 8),
        ]
    );
}

#[test]
fn erosion_stays_within_reserved_capacity() {
    for radius in 0..7usize {
        for &(x, y) in [(0usize, 0usize), (50, 50), (1599, 799), (1597, 3)].iter() {
            let cells = Terrain::erosion_cells(x, y, radius);
            assert!(cells.len() <= 4 * radius * radius);
            if radius > 0 {
                assert!(cells.contains(&(x, y)));
            }
            for &(cx, cy) in cells.iter() {
                assert!(cx < 1600 && cy < 800);
            }
        }
    }
}
