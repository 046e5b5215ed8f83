use pixelflut_ball::protocol::PixelflutCommand;
use std::collections::HashMap;

#[test]
fn encode_size() {
    let v = PixelflutCommand::Size.encode();
    assert_eq!(v, b"SIZE\n".to_vec());
}

#[test]
fn encode_set_pixel() {
    let v = PixelflutCommand::SetPixel { x: 123, y: 45, rgb: 0xff0000 }.encode();
    assert_eq!(v, b"PX 123 45 ff0000\n".to_vec());
}

#[test]
fn encode_set_pixel_pads_to_six_hex_digits() {
    let v = PixelflutCommand::SetPixel { x: 1, y: 2, rgb: 0xa }.encode();
    assert_eq!(v, b"PX 1 2 00000a\n".to_vec());
}

#[test]
fn encode_set_pixel_zero() {
    let v = PixelflutCommand::SetPixel { x: 0, y: 0, rgb: 0 }.encode();
    assert_eq!(v, b"PX 0 0 000000\n".to_vec());
}

#[test]
fn encode_get_pixel() {
    let v = PixelflutCommand::GetPixel { x: 10, y: 20 }.encode();
    assert_eq!(v, b"PX 10 20\n".to_vec());
}

#[test]
fn write_to_vec_appends() {
    let mut v: Vec<u8> = Vec::new();
    PixelflutCommand::Size.write_to_vec(&mut v);
    PixelflutCommand::GetPixel { x: 1, y: 2 }.write_to_vec(&mut v);
    assert_eq!(v, b"SIZE\nPX 1 2\n".to_vec());
}

#[test]
fn build_get_pixel_request_concatenates() {
    let coords = vec![(1u16, 2u16), (3u16, 4u16)];
    let v = pixelflut_ball::protocol::build_get_pixel_request(&coords);
    assert_eq!(v, b"PX 1 2\nPX 3 4\n".to_vec());
}

#[test]
fn set_pixel_twice_is_idempotent_on_canvas_model() {
    let mut canvas: HashMap<(u16, u16), u32> = HashMap::new();
    canvas.insert((7, 7), 0x123456);
    let cmd = PixelflutCommand::SetPixel { x: 5, y: 6, rgb: 0xff0000 };
    let apply = |c: &mut HashMap<(u16, u16), u32>, cmd: &PixelflutCommand| {
        if let PixelflutCommand::SetPixel { x, y, rgb } = cmd {
            c.insert((*x, *y), *rgb);
        }
    };
    let mut once = canvas.clone();
    apply(&mut once, &cmd);
    let mut twice = canvas.clone();
    apply(&mut twice, &cmd);
    apply(&mut twice, &cmd);
    assert_eq!(once, twice);
}
