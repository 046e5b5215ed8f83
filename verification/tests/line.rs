use pixelflut_ball::line::{
    coordinates_on_line, coordinates_on_line_with_dir_and_skip_offset, isqrt, px_of_mpx,
};

#[test]
fn horizontal_line_ten_pixels() {
    // From (0,0) to (10,0) in pixels (milli-pixel inputs), skip 0:
    // exactly 10 points with strictly increasing x from 0 to 9 and y == 0.
    let pts = coordinates_on_line(0, 0, 10000, 0);
    assert_eq!(pts.len(), 10);
    for (i, (x, y)) in pts.iter().enumerate() {
        assert_eq!(*x as usize, i);
        assert_eq!(*y, 0);
    }
}

#[test]
fn horizontal_ray_with_zero_skip() {
    let pts = coordinates_on_line_with_dir_and_skip_offset(0, 0, 1000, 0, 10000, 0);
    assert_eq!(pts.len(), 10);
    for (i, (x, y)) in pts.iter().enumerate() {
        assert_eq!(*x as usize, i);
        assert_eq!(*y, 0);
    }
}

#[test]
fn ray_skip_offset_moves_the_start() {
    let pts = coordinates_on_line_with_dir_and_skip_offset(0, 0, 1000, 0, 10000, 4000);
    assert_eq!(pts.len(), 6);
    assert_eq!(pts[0], (4, 0));
    assert_eq!(pts[5], (9, 0));
}

#[test]
fn diagonal_line_three_four_five() {
    // 3-4-5 triangle: 5 pixels of Euclidean distance.
    let pts = coordinates_on_line(0, 0, 3000, 4000);
    assert_eq!(pts.len(), 5);
    assert_eq!(pts[0], (0, 0));
    assert_eq!(pts[4], (2, 3));
}

#[test]
fn degenerate_line_is_empty() {
    let pts = coordinates_on_line(5000, 5000, 5000, 5000);
    assert_eq!(pts.len(), 0);
    let pts = coordinates_on_line_with_dir_and_skip_offset(5000, 5000, 0, 0, 10000, 0);
    assert_eq!(pts.len(), 0);
}

#[test]
fn isqrt_exact_values() {
    assert_eq!(isqrt(0), 0);
    assert_eq!(isqrt(1), 1);
    assert_eq!(isqrt(3), 1);
    assert_eq!(isqrt(4), 2);
    assert_eq!(isqrt(10), 3);
    assert_eq!(isqrt(99), 9);
    assert_eq!(isqrt(100), 10);
    assert_eq!(isqrt(1_000_000_000_000), 1_000_000);
    assert_eq!(isqrt(0x3fffffffffffffff), 2147483647);
}

#[test]
fn milli_pixel_truncation_clamps() {
    assert_eq!(px_of_mpx(-5), 0);
    assert_eq!(px_of_mpx(0), 0);
    assert_eq!(px_of_mpx(999), 0);
    assert_eq!(px_of_mpx(1000), 1);
    assert_eq!(px_of_mpx(65535999), 65535);
    assert_eq!(px_of_mpx(99999999999), 65535);
}
