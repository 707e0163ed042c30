use fl16_inputmodules::display::{
    double_gradient, draw, draw_grey_col, gradient, percentage, zigzag, DRAW_BYTES,
};
use fl16_inputmodules::matrix::{Grid, HEIGHT, WIDTH};

#[test]
fn draw_lights_mirrored_bits() {
    let mut bytes = [0u8; DRAW_BYTES];
    // bit 0 is LED (0, 0), shown in column WIDTH - 1
    bytes[0] = 0b0000_0001;
    // bit 9 + 2 = 11 is LED (2, 1), shown in column WIDTH - 3
    bytes[1] = 0b0000_1000;
    let g = draw(&bytes);
    assert_eq!(g.0[WIDTH - 1][0], 0xFF);
    assert_eq!(g.0[WIDTH - 3][1], 0xFF);
    let lit: usize = g.0.iter().map(|c| c.iter().filter(|v| **v == 0xFF).count()).sum();
    assert_eq!(lit, 2);
}

#[test]
fn grey_column_is_mirrored() {
    let mut g = Grid::default();
    let mut levels = [0u8; HEIGHT];
    levels[5] = 77;
    draw_grey_col(&mut g, 0, &levels);
    assert_eq!(g.0[WIDTH - 1][5], 77);
    assert_eq!(g.0[0][5], 0);
}

#[test]
fn gradient_rows() {
    let g = gradient();
    assert_eq!(g.0[0][0], 1);
    assert_eq!(g.0[4][33], 34);
}

#[test]
fn percentage_fills_from_bottom() {
    let half = percentage(50);
    assert_eq!(half.0[0][HEIGHT - 17], 0xFF);
    assert_eq!(half.0[0][HEIGHT - 18], 0);
    assert_eq!(percentage(0), Grid::default());
    assert!(percentage(100).0.iter().all(|c| c.iter().all(|v| *v == 0xFF)));
}

#[test]
fn double_gradient_peaks_in_middle() {
    let g = double_gradient();
    assert_eq!(g.0[0][0], 1);
    assert_eq!(g.0[0][16], 17);
    assert_eq!(g.0[0][17], 16);
    assert_eq!(g.0[0][33], 0);
}

#[test]
fn zigzag_bounces() {
    let g = zigzag();
    assert_eq!(g.0[0][0], 0xFF);
    assert_eq!(g.0[8][8], 0xFF);
    assert_eq!(g.0[8][9], 0xFF);
    assert_eq!(g.0[0][17], 0xFF);
    assert_eq!(g.0[0][18], 0xFF);
    assert_eq!(g.0[8][27], 0xFF);
    assert_eq!(g.0[2][33], 0xFF);
    assert_eq!(g.0[1][33], 0xFF);
    let lit: usize = g.0.iter().map(|c| c.iter().filter(|v| **v == 0xFF).count()).sum();
    assert_eq!(lit, 35);
}
