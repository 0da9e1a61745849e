use chain_reaction::bouncing::{BouncingBox, FRAME_BYTES, HEIGHT, WIDTH};

fn pixel(frame: &[u8], x: usize, y: usize) -> [u8; 4] {
    let i = 4 * (y * WIDTH as usize + x);
    [frame[i], frame[i + 1], frame[i + 2], frame[i + 3]]
}

#[test]
fn box_moves_diagonally() {
    let mut b = BouncingBox::new();
    b.update();
    assert_eq!((b.box_x, b.box_y, b.velocity_x, b.velocity_y), (17, 17, 1, 1));
}

#[test]
fn box_bounces_off_walls() {
    let mut b = BouncingBox::new();
    let mut seen_right = false;
    let mut seen_left = false;
    for _ in 0..2000 {
        b.update();
        assert!(b.box_x >= 0 && b.box_x + b.box_size <= WIDTH);
        assert!(b.box_y >= 0 && b.box_y + b.box_size <= HEIGHT);
        seen_right |= b.box_x + b.box_size == WIDTH;
        seen_left |= b.box_x == 0;
    }
    assert!(seen_right && seen_left);
}

#[test]
fn box_reverses_at_the_right_wall() {
    let mut b = BouncingBox { box_size: 32, box_x: 448, box_y: 100, velocity_x: 1, velocity_y: -1 };
    b.update();
    assert_eq!((b.box_x, b.box_y, b.velocity_x, b.velocity_y), (447, 99, -1, -1));
}

#[test]
fn render_draws_outline_and_fill() {
    let b = BouncingBox::new();
    let mut frame = vec![0u8; FRAME_BYTES];
    b.render(&mut frame);
    let edge = [0x48, 0xb2, 0xe8, 0xff];
    let fill = [0x5e, 0x48, 0xe8, 0xff];
    assert_eq!(pixel(&frame, 16, 16), edge);
    assert_eq!(pixel(&frame, 47, 30), edge);
    assert_eq!(pixel(&frame, 30, 47), edge);
    assert_eq!(pixel(&frame, 17, 17), fill);
    assert_eq!(pixel(&frame, 46, 46), fill);
    assert_eq!(pixel(&frame, 15, 16), [0, 0, 0, 0]);
    assert_eq!(pixel(&frame, 48, 20), [0, 0, 0, 0]);
    assert_eq!(pixel(&frame, 300, 200), [0, 0, 0, 0]);
}

#[test]
fn render_keeps_pixels_outside_the_box() {
    let b = BouncingBox::new();
    let mut frame = vec![7u8; FRAME_BYTES];
    b.render(&mut frame);
    assert_eq!(pixel(&frame, 0, 0), [7, 7, 7, 7]);
    assert_eq!(pixel(&frame, 479, 319), [7, 7, 7, 7]);
    let changed = frame.chunks_exact(4).filter(|p| *p != [7, 7, 7, 7]).count();
    assert_eq!(changed, 32 * 32);
}
