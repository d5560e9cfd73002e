use sensor_frames::bmp::{BmpEncoder, PixelFormat};
use sensor_frames::frame::PixelBuffer;

#[test]
fn new_buffer_is_white() {
    let b = PixelBuffer::new(3, 2);
    assert_eq!(b.width(), 3);
    assert_eq!(b.height(), 2);
    assert_eq!(b.pixels_ref(), &[255u8; 18][..]);
}

#[test]
fn reset_twice_gives_identical_bytes() {
    let mut b = PixelBuffer::new(2, 2);
    b.pixels_mut()[0] = 0;
    b.pixels_mut()[5] = 7;
    let template = b.capture_template();
    assert_eq!(template.pixels_ref(), b.pixels_ref());

    b.pixels_mut()[1] = 1;
    b.pixels_mut()[11] = 3;
    b.reset(&template);
    let first = b.pixels_ref().to_vec();
    assert_eq!(&first[..], template.pixels_ref());

    b.pixels_mut()[2] = 9;
    b.reset(&template);
    b.reset(&template);
    assert_eq!(b.pixels_ref(), &first[..]);
    assert_eq!(b.width(), 2);
    assert_eq!(b.height(), 2);
}

#[test]
fn template_is_not_changed_by_drawing() {
    let mut b = PixelBuffer::new(1, 1);
    let template = b.capture_template();
    b.pixels_mut()[0] = 0;
    assert_eq!(template.pixels_ref(), &[255, 255, 255]);
    assert_eq!(b.pixels_ref(), &[0, 255, 255]);
}

#[test]
fn buffer_frame_matches_encoder_output() {
    let mut b = PixelBuffer::new(2, 1);
    b.pixels_mut()[3] = 0;
    let enc = BmpEncoder::for_frame(2, 1, PixelFormat::Indexed);
    let mut via_buffer = Vec::new();
    b.write_frame(&enc, &mut via_buffer);
    let mut direct = Vec::new();
    enc.write_all(&mut direct, b.pixels_ref());
    assert_eq!(via_buffer, direct);
    assert_eq!(&via_buffer[86..], &[0, 1]);
}
