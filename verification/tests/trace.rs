use ymir::sim::terrain::{Terrain, HEIGHT, WIDTH};
use ymir::terrain::{Terrain as ViewerTerrain, HEIGHT as VIEWER_HEIGHT, WIDTH as VIEWER_WIDTH};

const BLUE: [u8; 4] = [0, 0, 255, 255];

fn frame(len: usize, fill: u8) -> Vec<u8> {
    vec![fill; len]
}

fn pixel(frame: &[u8], x: usize, y: usize, width: usize) -> [u8; 4] {
    let at = (y * width + x) * 4;
    [frame[at], frame[at + 1], frame[at + 2], frame[at + 3]]
}

#[test]
fn new_terrain_draws_no_trace() {
    let terrain = Terrain::new();
    let mut f = frame(WIDTH * HEIGHT * 4, 7);
    terrain.draw_trace(&mut f);
    assert!(f.iter().all(|&b| b == 7));
}

#[test]
fn set_trace_paints_that_cell_blue() {
    let mut terrain = Terrain::new();
    terrain.set_trace(3, 2);
    let mut f = frame(WIDTH * HEIGHT * 4, 9);
    terrain.draw_trace(&mut f);
    assert_eq!(pixel(&f, 3, 2, WIDTH), BLUE);
    assert_eq!(pixel(&f, 2, 3, WIDTH), [9, 9, 9, 9]);
    assert_eq!(pixel(&f, 4, 2, WIDTH), [9, 9, 9, 9]);
    let blue_bytes = f.iter().filter(|&&b| b != 9).count();
    assert_eq!(blue_bytes, 4);
    assert_eq!(&f[(2 * WIDTH + 3) * 4..(2 * WIDTH + 3) * 4 + 4], &BLUE);
}

#[test]
fn set_trace_reaches_last_cell() {
    let mut terrain = ViewerTerrain::new();
    terrain.set_trace(VIEWER_WIDTH - 1, VIEWER_HEIGHT - 1);
    let mut f = frame(VIEWER_WIDTH * VIEWER_HEIGHT * 4, 1);
    terrain.draw_trace(&mut f);
    assert_eq!(&f[f.len() - 4..], &BLUE);
    assert!(f[..f.len() - 4].iter().all(|&b| b == 1));
}

#[test]
fn draw_trace_keeps_bytes_past_the_cells() {
    let mut terrain = ViewerTerrain::new();
    terrain.set_trace(0, 0);
    let n = VIEWER_WIDTH * VIEWER_HEIGHT * 4;
    let mut f = frame(n + 6, 5);
    terrain.draw_trace(&mut f);
    assert_eq!(&f[..4], &BLUE);
    assert_eq!(&f[n..], &[5, 5, 5, 5, 5, 5]);
}

#[test]
fn clear_trace_forgets_every_cell() {
    let mut terrain = ViewerTerrain::new();
    terrain.set_trace(1, 1);
    terrain.set_trace(10, 20);
    terrain.clear_trace();
    let mut f = frame(VIEWER_WIDTH * VIEWER_HEIGHT * 4, 3);
    terrain.draw_trace(&mut f);
    assert!(f.iter().all(|&b| b == 3));
}

#[test]
fn draw_trace_twice_equals_once() {
    let mut terrain = ViewerTerrain::new();
    terrain.set_trace(7, 8);
    terrain.set_trace(100, 0);
    let mut once = frame(VIEWER_WIDTH * VIEWER_HEIGHT * 4, 42);
    terrain.draw_trace(&mut once);
    let mut twice = once.clone();
    terrain.draw_trace(&mut twice);
    assert_eq!(once, twice);
}

#[test]
fn set_trace_twice_and_in_either_order() {
    let mut a = ViewerTerrain::new();
    a.set_trace(5, 6);
    a.set_trace(7, 8);
    a.set_trace(5, 6);
    let mut b = ViewerTerrain::new();
    b.set_trace(7, 8);
    b.set_trace(5, 6);
    let mut fa = frame(VIEWER_WIDTH * VIEWER_HEIGHT * 4, 0);
    let mut fb = fa.clone();
    a.draw_trace(&mut fa);
    b.draw_trace(&mut fb);
    assert_eq!(fa, fb);
    assert_eq!(pixel(&fa, 5, 6, VIEWER_WIDTH), BLUE);
    assert_eq!(pixel(&fa, 7, 8, VIEWER_WIDTH), BLUE);
    assert_eq!(fa.iter().filter(|&&b| b != 0).count(), 4);
}
