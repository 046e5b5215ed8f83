use pixelflut_ball::ball::Ball;
use pixelflut_ball::draw::{draw_coordinates, draw_image, draw_rect};
use pixelflut_ball::frame::FrameStore;
use pixelflut_ball::goal::Goal;
use pixelflut_ball::image::{Image, Pixel};
use pixelflut_ball::protocol::Draw;

fn px(r: u8, g: u8, b: u8, a: u8) -> Pixel {
    Pixel { r, g, b, a }
}

/// A width x height image whose pixel at (x, y) is produced by `f`,
/// stored column-major as the library expects.
fn make_image(width: u16, height: u16, f: impl Fn(u16, u16) -> Pixel) -> Image {
    let mut pixels = Vec::new();
    for x in 0..width {
        for y in 0..height {
            pixels.push(f(x, y));
        }
    }
    Image::new(width, height, pixels)
}

#[test]
fn rect_bytes_are_column_major() {
    let v = draw_rect(1, 2, 2, 2, 0xabcdef);
    let expected = b"PX 1 2 abcdef\nPX 1 3 abcdef\nPX 2 2 abcdef\nPX 2 3 abcdef\n".to_vec();
    assert_eq!(v, expected);
}

#[test]
fn rect_of_zero_size_is_empty() {
    assert_eq!(draw_rect(5, 5, 0, 3, 0xffffff), Vec::<u8>::new());
    assert_eq!(draw_rect(5, 5, 3, 0, 0xffffff), Vec::<u8>::new());
}

#[test]
fn coordinates_bytes_in_order() {
    let v = draw_coordinates(vec![(9, 8), (7, 6)], 0x00ff00);
    assert_eq!(v, b"PX 9 8 00ff00\nPX 7 6 00ff00\n".to_vec());
}

#[test]
fn image_bytes_pack_rgb_and_skip_transparent() {
    let img = make_image(2, 2, |x, y| {
        if x == 1 && y == 0 {
            px(9, 9, 9, 0)
        } else {
            px(1, 2, 3, 255)
        }
    });
    let v = draw_image(&img, 10, 20);
    let expected = b"PX 10 20 010203\nPX 10 21 010203\nPX 11 21 010203\n".to_vec();
    assert_eq!(v, expected);
}

#[test]
fn image_flips_horizontally() {
    let img = make_image(2, 1, |x, _| if x == 0 { px(1, 0, 0, 255) } else { px(2, 0, 0, 255) });
    let flipped = img.fliph();
    assert_eq!(flipped.get(0, 0), px(2, 0, 0, 255));
    assert_eq!(flipped.get(1, 0), px(1, 0, 0, 255));
    let v = draw_image(&flipped, 0, 0);
    assert_eq!(v, b"PX 0 0 020000\nPX 1 0 010000\n".to_vec());
}

#[test]
fn goal_left_position_and_bytes() {
    let img = make_image(338, 600, |_, _| px(5, 5, 5, 255));
    let g = Goal::left(600, &img);
    assert_eq!(g.hitbox_x, 0);
    assert_eq!(g.hitbox_y, 145);
    assert_eq!(g.draw_commands, draw_image(&img, 0, 0));
}

#[test]
fn goal_right_is_flipped_and_right_aligned() {
    let img = make_image(338, 600, |x, y| {
        if x == 0 && y == 0 {
            px(1, 1, 1, 255)
        } else {
            px(5, 5, 5, 255)
        }
    });
    let g = Goal::right(800, 600, &img);
    assert_eq!(g.hitbox_x, 800 - 117);
    assert_eq!(g.hitbox_y, 145);
    let flipped = img.fliph();
    assert_eq!(g.draw_commands, draw_image(&flipped, 800 - 338, 0));
}

#[test]
fn goal_draw_returns_its_commands() {
    let img = make_image(338, 600, |_, _| px(5, 5, 5, 255));
    let g = Goal::left(600, &img);
    assert_eq!(g.draw(), g.draw_commands);
}

#[test]
fn ball_draw_commands_render_at_center_minus_radius() {
    let img = make_image(80, 80, |_, _| px(7, 8, 9, 255));
    let b = Ball {
        center_x: 380000,
        center_y: 280000,
        vel_x: 0,
        vel_y: 0,
        radius: 40000,
        screen_width: 800,
        screen_height: 600,
        obstacle_flips_y: false,
    };
    let v = b.get_draw_commands(&img);
    assert_eq!(v, draw_image(&img, 340, 240));
}

#[test]
fn frame_snapshot_returns_the_published_buffer() {
    let mut store = FrameStore::new(b"first".to_vec());
    assert_eq!(store.snapshot(), b"first".to_vec());
    store.publish(b"second".to_vec());
    assert_eq!(store.snapshot(), b"second".to_vec());
    assert_eq!(store.draw(), b"second".to_vec());
}

#[test]
fn frame_reads_see_exactly_one_published_buffer() {
    // One writer replacing the buffer 1000 times: every read returns a
    // buffer that some single publish produced, whole, never a mix of
    // two.
    let mut store = FrameStore::new(Vec::new());
    let mut published: Vec<Vec<u8>> = Vec::new();
    for i in 0..1000u32 {
        let frame = format!("frame {i} payload {}", i * 31).into_bytes();
        published.push(frame.clone());
        store.publish(frame);
        let seen = store.snapshot();
        assert!(published.contains(&seen));
        assert_eq!(seen, published[published.len() - 1]);
    }
}
