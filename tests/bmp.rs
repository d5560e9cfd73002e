use sensor_frames::bmp::{BmpEncoder, BmpHeader, PixelFormat, HEIGHT, WIDTH};

fn u32_at(b: &[u8], at: usize) -> u32 {
    u32::from_le_bytes([b[at], b[at + 1], b[at + 2], b[at + 3]])
}

fn i32_at(b: &[u8], at: usize) -> i32 {
    i32::from_le_bytes([b[at], b[at + 1], b[at + 2], b[at + 3]])
}

fn u16_at(b: &[u8], at: usize) -> u16 {
    u16::from_le_bytes([b[at], b[at + 1]])
}

#[test]
fn default_encoder_writes_full_hd_truecolor() {
    let enc = BmpEncoder::new();
    assert_eq!(enc.width(), 1920);
    assert_eq!(enc.height(), 1080);
    assert_eq!(enc.format(), PixelFormat::Truecolor);
    let pixels = vec![255u8; (WIDTH * HEIGHT * 3) as usize];
    let mut out = Vec::new();
    enc.write_all(&mut out, &pixels);
    assert_eq!(out.len(), 1920 * 1080 * 3 + 54);
    assert_eq!(&out[0..2], b"BM");
    assert_eq!(u32_at(&out, 2), 6_220_854);
    assert_eq!(&out[6..10], &[0, 0, 0, 0]);
    assert_eq!(u32_at(&out, 10), 54);
    assert_eq!(i32_at(&out, 22), -1080);
}

#[test]
fn info_header_is_forty_bytes_in_field_order() {
    let h = BmpHeader::new();
    let mut out = vec![9u8];
    h.write_all(&mut out);
    assert_eq!(out.len(), 41);
    assert_eq!(out[0], 9);
    let b = &out[1..];
    assert_eq!(u32_at(b, 0), 40);
    assert_eq!(u32_at(b, 4), 1920);
    assert_eq!(i32_at(b, 8), -1080);
    assert_eq!(u16_at(b, 12), 1);
    assert_eq!(u16_at(b, 14), 24);
    assert_eq!(u32_at(b, 16), 0);
    assert_eq!(u32_at(b, 20), 1920 * 1080 * 3);
    assert_eq!(&b[24..40], &[0u8; 16]);
}

#[test]
fn header_fields_for_indexed_frame() {
    let h = BmpHeader::for_frame(7, 3, PixelFormat::Indexed);
    assert_eq!(h.bi_size, 40);
    assert_eq!(h.bi_width, 7);
    assert_eq!(h.bi_height, -3);
    assert_eq!(h.bi_planes, 1);
    assert_eq!(h.bi_bit_count, 8);
    assert_eq!(h.bi_compression, 0);
    assert_eq!(h.bi_size_image, 21);
    assert_eq!(h.bi_clr_used, 8);
    assert_eq!(h.bi_clr_important, 0);
}

#[test]
fn truecolor_round_trip_recovers_size_and_payload() {
    let enc = BmpEncoder::for_frame(4, 2, PixelFormat::Truecolor);
    let pixels: Vec<u8> = (0..24u8).collect();
    let mut out = Vec::new();
    enc.write_all(&mut out, &pixels);
    assert_eq!(out.len(), 14 + 40 + 24);
    assert_eq!(u32_at(&out, 2) as usize, out.len());
    assert_eq!(u32_at(&out, 10), 54);
    assert_eq!(u32_at(&out, 14), 40);
    assert_eq!(u32_at(&out, 18), 4);
    assert_eq!(i32_at(&out, 22), -2);
    assert_eq!(u16_at(&out, 26), 1);
    assert_eq!(u16_at(&out, 28), 24);
    assert_eq!(u32_at(&out, 34), 24);
    assert_eq!(u32_at(&out, 46), 0);
    assert_eq!(&out[54..], &pixels[..]);
}

#[test]
fn indexed_frame_thresholds_on_pure_white() {
    let enc = BmpEncoder::for_frame(2, 2, PixelFormat::Indexed);
    let pixels = vec![255, 255, 255, 255, 0, 0, 255, 255, 254, 0, 0, 0];
    let mut out = Vec::new();
    enc.write_all(&mut out, &pixels);
    assert_eq!(out.len(), 14 + 40 + 32 + 4);
    assert_eq!(u32_at(&out, 2), 90);
    assert_eq!(u32_at(&out, 10), 86);
    assert_eq!(u16_at(&out, 28), 8);
    assert_eq!(u32_at(&out, 34), 4);
    assert_eq!(u32_at(&out, 46), 8);
    assert_eq!(&out[54..58], &[255, 255, 255, 0]);
    assert_eq!(&out[58..86], &[0u8; 28]);
    assert_eq!(&out[86..], &[0, 1, 1, 1]);
}

#[test]
fn indexed_payload_bytes_are_binary() {
    let enc = BmpEncoder::for_frame(3, 1, PixelFormat::Indexed);
    let pixels = vec![0, 0, 0, 255, 255, 255, 128, 255, 255];
    let mut out = Vec::new();
    enc.write_all(&mut out, &pixels);
    for b in &out[86..] {
        assert!(*b == 0 || *b == 1);
    }
    assert_eq!(&out[86..], &[1, 0, 1]);
}

#[test]
fn empty_frame_has_headers_only() {
    let enc = BmpEncoder::for_frame(0, 0, PixelFormat::Truecolor);
    let mut out = Vec::new();
    enc.write_all(&mut out, &[]);
    assert_eq!(out.len(), 54);
    assert_eq!(u32_at(&out, 2), 54);
    assert_eq!(i32_at(&out, 22), 0);
}
