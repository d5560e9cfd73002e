//! A bitmap container for single frames: file header, info header, an
//! optional two-colour table, and the pixel payload without row padding.
use vstd::prelude::*;

verus! {

/// Bytes in the file header.
pub const FILE_HEADER_LEN: usize = 14;

/// Bytes in the info header.
pub const INFO_HEADER_LEN: usize = 40;

/// Bytes in the colour table of an indexed frame: eight entries of four.
pub const PALETTE_LEN: usize = 32;

/// Entries in the colour table of an indexed frame.
pub const PALETTE_ENTRIES: u32 = 8;

/// Frame width of the default encoder, in pixels.
pub const WIDTH: u32 = 1920;

/// Frame height of the default encoder, in pixels.
pub const HEIGHT: u32 = 1080;

/// How each pixel is stored in the payload.
#[derive(Clone, Copy, Debug, PartialEq, Eq, Structural)]
pub enum PixelFormat {
    /// Three bytes per pixel, copied from the buffer as they stand.
    Truecolor,
    /// One byte per pixel: 0 for pure white, 1 for anything else.
    Indexed,
}

/// Bits per pixel of a format.
pub open spec fn bits_per_pixel(format: PixelFormat) -> int {
    match format {
        PixelFormat::Truecolor => 24,
        PixelFormat::Indexed => 8,
    }
}

/// Payload bytes per pixel of a format.
pub open spec fn payload_bytes_per_pixel(format: PixelFormat) -> int {
    match format {
        PixelFormat::Truecolor => 3,
        PixelFormat::Indexed => 1,
    }
}

/// Bytes of the colour table of a format.
pub open spec fn palette_len(format: PixelFormat) -> int {
    match format {
        PixelFormat::Truecolor => 0,
        PixelFormat::Indexed => 32,
    }
}

/// Where the payload starts in the file.
pub open spec fn payload_offset(format: PixelFormat) -> int {
    14 + 40 + palette_len(format)
}

/// Whether a `width` by `height` frame fits the header's fields: the
/// height is stored negated in an `i32`, and every size in a `u32`.
pub open spec fn frame_fits(width: int, height: int) -> bool {
    &&& 0 <= width <= u32::MAX
    &&& 0 <= height <= i32::MAX
    &&& width * height * 3 + 14 + 40 + 32 <= u32::MAX
}

/// Little-endian bytes of a 16-bit value.
pub open spec fn le16(v: int) -> Seq<u8> {
    seq![(v % 256) as u8, ((v / 256) % 256) as u8]
}

/// Little-endian bytes of a 32-bit value.
pub open spec fn le32(v: int) -> Seq<u8> {
    seq![
        (v % 256) as u8,
        ((v / 256) % 256) as u8,
        ((v / 65536) % 256) as u8,
        ((v / 16777216) % 256) as u8,
    ]
}

/// The 32-bit two's complement pattern of an `i32`, as an unsigned value.
pub open spec fn i32_bits(v: int) -> int {
    if v >= 0 {
        v
    } else {
        v + 0x1_0000_0000
    }
}

/// The unsigned 16-bit value stored little-endian at `at`.
pub open spec fn read_le16(b: Seq<u8>, at: int) -> int {
    b[at] + 256 * b[at + 1]
}

/// The unsigned 32-bit value stored little-endian at `at`.
pub open spec fn read_le32(b: Seq<u8>, at: int) -> int {
    b[at] + 256 * b[at + 1] + 65536 * b[at + 2] + 16777216 * b[at + 3]
}

/// The signed 32-bit value stored little-endian at `at`.
pub open spec fn read_le_i32(b: Seq<u8>, at: int) -> int {
    let u = read_le32(b, at);
    if u < 0x8000_0000 {
        u
    } else {
        u - 0x1_0000_0000
    }
}

/// The payload of a frame whose buffer holds `pixels`, three bytes each.
pub open spec fn payload(format: PixelFormat, pixels: Seq<u8>) -> Seq<u8> {
    match format {
        PixelFormat::Truecolor => pixels,
        PixelFormat::Indexed => quantized(pixels),
    }
}

/// Whether pixel `k` of a three-byte buffer is pure white.
pub open spec fn is_white(pixels: Seq<u8>, k: int) -> bool {
    pixels[3 * k] == 255 && pixels[3 * k + 1] == 255 && pixels[3 * k + 2] == 255
}

/// One palette index for each three-byte pixel: 0 where the pixel is pure
/// white, 1 everywhere else.
pub open spec fn quantized(pixels: Seq<u8>) -> Seq<u8> {
    Seq::new(pixels.len() / 3, |k: int| if is_white(pixels, k) { 0u8 } else { 1u8 })
}

/// The colour table of an indexed frame: white, black, then six unused
/// entries, each as blue, green, red and a zero byte.
pub open spec fn palette_bytes() -> Seq<u8> {
    seq![255u8, 255u8, 255u8, 0u8].add(Seq::new(28, |k: int| 0u8))
}

/// The bytes of a frame's file header.
pub open spec fn file_header_bytes(width: int, height: int, format: PixelFormat) -> Seq<u8> {
    let offset = payload_offset(format);
    let size = offset + width * height * payload_bytes_per_pixel(format);
    seq![66u8, 77u8].add(le32(size)).add(seq![0u8, 0u8, 0u8, 0u8]).add(le32(offset))
}

/// The info header of a frame, field by field. Every field is written
/// little-endian in declaration order.
#[derive(Clone, Copy, Debug, PartialEq, Eq, Structural)]
pub struct BmpHeader {
    /// Size of this header: 40.
    pub bi_size: u32,
    /// Image width in pixels.
    pub bi_width: u32,
    /// Image height in pixels, negated: rows run from the top down.
    pub bi_height: i32,
    /// Colour planes: 1.
    pub bi_planes: u16,
    /// Bits per pixel: 24 or 8.
    pub bi_bit_count: u16,
    /// Compression: 0, none.
    pub bi_compression: u32,
    /// Payload size in bytes.
    pub bi_size_image: u32,
    /// Horizontal resolution: 0.
    pub bi_x_pels_per_meter: u32,
    /// Vertical resolution: 0.
    pub bi_y_pels_per_meter: u32,
    /// Colour table entries: 8 for indexed frames, else 0.
    pub bi_clr_used: u32,
    /// Important colours: 0.
    pub bi_clr_important: u32,
}

impl BmpHeader {
    /// The 40 bytes that this header is written as.
    pub open spec fn bytes(&self) -> Seq<u8> {
        le32(self.bi_size as int)
            .add(le32(self.bi_width as int))
            .add(le32(i32_bits(self.bi_height as int)))
            .add(le16(self.bi_planes as int))
            .add(le16(self.bi_bit_count as int))
            .add(le32(self.bi_compression as int))
            .add(le32(self.bi_size_image as int))
            .add(le32(self.bi_x_pels_per_meter as int))
            .add(le32(self.bi_y_pels_per_meter as int))
            .add(le32(self.bi_clr_used as int))
            .add(le32(self.bi_clr_important as int))
    }

    /// Whether this is the info header of a `width` by `height` frame in `format`.
    pub open spec fn describes(&self, width: int, height: int, format: PixelFormat) -> bool {
        &&& self.bi_size == 40
        &&& self.bi_width == width
        &&& self.bi_height == -height
        &&& self.bi_planes == 1
        &&& self.bi_bit_count == bits_per_pixel(format)
        &&& self.bi_compression == 0
        &&& self.bi_size_image == width * height * payload_bytes_per_pixel(format)
        &&& self.bi_x_pels_per_meter == 0
        &&& self.bi_y_pels_per_meter == 0
        &&& self.bi_clr_used == (if format == PixelFormat::Indexed { 8int } else { 0int })
        &&& self.bi_clr_important == 0
    }

    /// The info header of a truecolor frame of the default size.
    pub fn new() -> (r: BmpHeader)
        ensures
            r.describes(WIDTH as int, HEIGHT as int, PixelFormat::Truecolor),
    {
        BmpHeader::for_frame(WIDTH, HEIGHT, PixelFormat::Truecolor)
    }

    /// The info header of a `width` by `height` frame in `format`.
    pub fn for_frame(width: u32, height: u32, format: PixelFormat) -> (r: BmpHeader)
        requires
            frame_fits(width as int, height as int),
        ensures
            r.describes(width as int, height as int, format),
    {
        let area = width * height;
        let (bits, size_image, colours): (u16, u32, u32) = match format {
            PixelFormat::Truecolor => (24, area * 3, 0),
            PixelFormat::Indexed => (8, area, PALETTE_ENTRIES),
        };
        BmpHeader {
            bi_size: INFO_HEADER_LEN as u32,
            bi_width: width,
            bi_height: -(height as i32),
            bi_planes: 1,
            bi_bit_count: bits,
            bi_compression: 0,
            bi_size_image: size_image,
            bi_x_pels_per_meter: 0,
            bi_y_pels_per_meter: 0,
            bi_clr_used: colours,
            bi_clr_important: 0,
        }
    }

    /// Appends this header's 40 bytes to `writer`.
    pub fn write_all(&self, writer: &mut Vec<u8>)
        ensures
            final(writer)@ == old(writer)@ + self.bytes(),
    {
        push_le32(writer, self.bi_size);
        push_le32(writer, self.bi_width);
        push_le32(writer, i32_to_bits(self.bi_height));
        push_le16(writer, self.bi_planes);
        push_le16(writer, self.bi_bit_count);
        push_le32(writer, self.bi_compression);
        push_le32(writer, self.bi_size_image);
        push_le32(writer, self.bi_x_pels_per_meter);
        push_le32(writer, self.bi_y_pels_per_meter);
        push_le32(writer, self.bi_clr_used);
        push_le32(writer, self.bi_clr_important);
    }
}

fn i32_to_bits(v: i32) -> (r: u32)
    ensures
        r == i32_bits(v as int),
{
    if v >= 0 {
        v as u32
    } else {
        let m = (-(v as i64)) as u32;
        u32::MAX - (m - 1)
    }
}

fn push_le16(out: &mut Vec<u8>, v: u16)
    ensures
        final(out)@ == old(out)@ + le16(v as int),
{
    out.push((v % 256) as u8);
    out.push((v / 256) as u8);
    assert(out@ =~= old(out)@ + le16(v as int));
}

fn push_le32(out: &mut Vec<u8>, v: u32)
    ensures
        final(out)@ == old(out)@ + le32(v as int),
{
    out.push((v % 256) as u8);
    out.push(((v / 256) % 256) as u8);
    out.push(((v / 65536) % 256) as u8);
    out.push((v / 16777216) as u8);
    assert(out@ =~= old(out)@ + le32(v as int));
}

/// Writes frames of one fixed size and format. Only the payload changes
/// from frame to frame; both headers are made once.
pub struct BmpEncoder {
    file_header: [u8; 14],
    info: BmpHeader,
    format: PixelFormat,
}

impl BmpEncoder {
    /// Frame width in pixels.
    pub closed spec fn spec_width(&self) -> int {
        self.info.bi_width as int
    }

    /// Frame height in pixels.
    pub closed spec fn spec_height(&self) -> int {
        -(self.info.bi_height as int)
    }

    /// How pixels are stored.
    pub closed spec fn spec_format(&self) -> PixelFormat {
        self.format
    }

    pub closed spec fn wf(&self) -> bool {
        &&& frame_fits(self.spec_width(), self.spec_height())
        &&& self.info.describes(self.spec_width(), self.spec_height(), self.format)
        &&& self.file_header@ == file_header_bytes(
            self.spec_width(),
            self.spec_height(),
            self.format,
        )
    }

    /// Every byte of one frame whose buffer holds `pixels`, three bytes each.
    pub open spec fn frame_bytes(&self, pixels: Seq<u8>) -> Seq<u8> {
        frame_bytes(self.spec_width(), self.spec_height(), self.spec_format(), pixels)
    }

    /// An encoder of truecolor frames of the default size.
    pub fn new() -> (r: BmpEncoder)
        ensures
            r.wf(),
            r.spec_width() == WIDTH,
            r.spec_height() == HEIGHT,
            r.spec_format() == PixelFormat::Truecolor,
    {
        BmpEncoder::for_frame(WIDTH, HEIGHT, PixelFormat::Truecolor)
    }

    /// An encoder of `width` by `height` frames in `format`.
    pub fn for_frame(width: u32, height: u32, format: PixelFormat) -> (r: BmpEncoder)
        requires
            frame_fits(width as int, height as int),
        ensures
            r.wf(),
            r.spec_width() == width,
            r.spec_height() == height,
            r.spec_format() == format,
    {
        let area = width * height;
        let (offset, size): (u32, u32) = match format {
            PixelFormat::Truecolor => (54, area * 3 + 54),
            PixelFormat::Indexed => (86, area + 86),
        };
        let file_header: [u8; 14] = [
            66,
            77,
            (size % 256) as u8,
            ((size / 256) % 256) as u8,
            ((size / 65536) % 256) as u8,
            (size / 16777216) as u8,
            0,
            0,
            0,
            0,
            (offset % 256) as u8,
            ((offset / 256) % 256) as u8,
            ((offset / 65536) % 256) as u8,
            (offset / 16777216) as u8,
        ];
        let info = BmpHeader::for_frame(width, height, format);
        let r = BmpEncoder { file_header, info, format };
        assert(r.file_header@ =~= file_header_bytes(width as int, height as int, format));
        r
    }

    /// Frame width in pixels.
    pub fn width(&self) -> (r: u32)
        requires
            self.wf(),
        ensures
            r == self.spec_width(),
    {
        self.info.bi_width
    }

    /// Frame height in pixels.
    pub fn height(&self) -> (r: u32)
        requires
            self.wf(),
        ensures
            r == self.spec_height(),
    {
        (-(self.info.bi_height as i64)) as u32
    }

    /// How pixels are stored.
    pub fn format(&self) -> (r: PixelFormat)
        ensures
            r == self.spec_format(),
    {
        self.format
    }

    /// Appends one whole frame to `writer`: both headers, the colour table
    /// of an indexed frame, and the payload made from `pixel_array`, which
    /// holds the frame's pixels row by row from the top, three bytes each.
    pub fn write_all(&self, writer: &mut Vec<u8>, pixel_array: &[u8])
        requires
            self.wf(),
            pixel_array@.len() == self.spec_width() * self.spec_height() * 3,
        ensures
            final(writer)@ == old(writer)@ + self.frame_bytes(pixel_array@),
    {
        let mut i: usize = 0;
        while i < FILE_HEADER_LEN
            invariant
                self.wf(),
                0 <= i <= 14,
                writer@ == old(writer)@ + self.file_header@.subrange(0, i as int),
            decreases 14 - i,
        {
            writer.push(self.file_header[i]);
            i = i + 1;
            assert(writer@ =~= old(writer)@ + self.file_header@.subrange(0, i as int));
        }
        assert(self.file_header@.subrange(0, 14) =~= self.file_header@);
        self.info.write_all(writer);
        match self.format {
            PixelFormat::Truecolor => {
                push_all(writer, pixel_array);
            },
            PixelFormat::Indexed => {
                push_palette(writer);
                push_quantized(writer, pixel_array);
            },
        }
        assert(self.info.bytes() =~= info_header_bytes(
            self.spec_width(),
            self.spec_height(),
            self.format,
        ));
    }
}

/// Every byte of one `width` by `height` frame in `format` whose buffer
/// holds `pixels`, three bytes each.
pub open spec fn frame_bytes(width: int, height: int, format: PixelFormat, pixels: Seq<u8>) -> Seq<
    u8,
> {
    file_header_bytes(width, height, format) + info_header_bytes(width, height, format) + (
    if format == PixelFormat::Indexed {
        palette_bytes()
    } else {
        Seq::empty()
    }) + payload(format, pixels)
}

/// The bytes of a frame's info header.
pub open spec fn info_header_bytes(width: int, height: int, format: PixelFormat) -> Seq<u8> {
    le32(40).add(le32(width)).add(le32(i32_bits(-height))).add(le16(1)).add(
        le16(bits_per_pixel(format)),
    ).add(le32(0)).add(le32(width * height * payload_bytes_per_pixel(format))).add(le32(0)).add(
        le32(0),
    ).add(le32(if format == PixelFormat::Indexed { 8int } else { 0int })).add(le32(0))
}

fn push_all(out: &mut Vec<u8>, bytes: &[u8])
    ensures
        final(out)@ == old(out)@ + bytes@,
{
    let mut i: usize = 0;
    while i < bytes.len()
        invariant
            0 <= i <= bytes@.len(),
            out@ == old(out)@ + bytes@.subrange(0, i as int),
        decreases bytes.len() - i,
    {
        out.push(bytes[i]);
        i = i + 1;
        assert(out@ =~= old(out)@ + bytes@.subrange(0, i as int));
    }
    assert(bytes@.subrange(0, bytes@.len() as int) =~= bytes@);
}

fn push_palette(out: &mut Vec<u8>)
    ensures
        final(out)@ == old(out)@ + palette_bytes(),
{
    out.push(255);
    out.push(255);
    out.push(255);
    out.push(0);
    let mut i: usize = 4;
    while i < PALETTE_LEN
        invariant
            4 <= i <= 32,
            out@ == old(out)@ + palette_bytes().subrange(0, i as int),
        decreases 32 - i,
    {
        out.push(0);
        i = i + 1;
        assert(out@ =~= old(out)@ + palette_bytes().subrange(0, i as int));
    }
    assert(palette_bytes().subrange(0, 32) =~= palette_bytes());
}

fn push_quantized(out: &mut Vec<u8>, pixels: &[u8])
    requires
        pixels@.len() % 3 == 0,
    ensures
        final(out)@ == old(out)@ + quantized(pixels@),
{
    let len = pixels.len();
    let n = len / 3;
    let mut k: usize = 0;
    while k < n
        invariant
            len == pixels@.len(),
            n == len / 3,
            pixels@.len() % 3 == 0,
            0 <= k <= n,
            out@ == old(out)@ + quantized(pixels@).subrange(0, k as int),
        decreases n - k,
    {
        assert(3 * k + 2 < pixels@.len());
        let white = pixels[3 * k] == 255 && pixels[3 * k + 1] == 255 && pixels[3 * k + 2] == 255;
        out.push(if white { 0 } else { 1 });
        k = k + 1;
        assert(out@ =~= old(out)@ + quantized(pixels@).subrange(0, k as int));
    }
    assert(quantized(pixels@).subrange(0, n as int) =~= quantized(pixels@));
}

proof fn lemma_le16_round_trip(v: int)
    requires
        0 <= v < 0x1_0000,
    ensures
        le16(v).len() == 2,
        read_le16(le16(v), 0) == v,
{
    let b = le16(v);
    assert(b[0] == v % 256);
    assert(b[1] == (v / 256) % 256);
}

proof fn lemma_le32_round_trip(v: int)
    requires
        0 <= v < 0x1_0000_0000,
    ensures
        le32(v).len() == 4,
        read_le32(le32(v), 0) == v,
{
    let b = le32(v);
    let v1 = v / 256;
    let v2 = v1 / 256;
    let v3 = v2 / 256;
    assert(v / 65536 == v2);
    assert(v / 16777216 == v3);
    assert(b[0] == v % 256);
    assert(b[1] == v1 % 256);
    assert(b[2] == v2 % 256);
    assert(b[3] == v3 % 256);
    assert(v3 < 256);
}

/// Reading a truecolor frame's headers back gives its width, its height,
/// its bit depth and its exact length, fourteen and forty header bytes
/// and three bytes per pixel with no row padding; the payload is the
/// buffer as it stood.
pub proof fn lemma_truecolor_round_trip(width: int, height: int, pixels: Seq<u8>)
    requires
        frame_fits(width, height),
        pixels.len() == width * height * 3,
    ensures
        ({
            let b = frame_bytes(width, height, PixelFormat::Truecolor, pixels);
            &&& b.len() == 14 + 40 + width * height * 3
            &&& b[0] == 66 && b[1] == 77
            &&& read_le32(b, 2) == b.len()
            &&& read_le32(b, 10) == 54
            &&& read_le32(b, 14) == 40
            &&& read_le32(b, 18) == width
            &&& read_le_i32(b, 22) == -height
            &&& read_le16(b, 28) == 24
            &&& read_le32(b, 34) == width * height * 3
            &&& b.subrange(54, b.len() as int) == pixels
        }),
{
    let f = PixelFormat::Truecolor;
    let b = frame_bytes(width, height, f, pixels);
    let fh = file_header_bytes(width, height, f);
    let ih = info_header_bytes(width, height, f);
    let size = 54 + width * height * 3;
    lemma_le32_round_trip(size);
    lemma_le32_round_trip(54);
    lemma_le32_round_trip(40);
    lemma_le32_round_trip(width);
    lemma_le32_round_trip(i32_bits(-height));
    lemma_le16_round_trip(24);
    lemma_le32_round_trip(width * height * 3);
    assert(fh.len() == 14);
    assert(ih.len() == 40);
    assert(b == fh + ih + pixels) by {
        assert(fh + ih + Seq::<u8>::empty() + pixels =~= fh + ih + pixels);
    }
    assert(b.subrange(54, b.len() as int) =~= pixels);
    assert(read_le32(b, 2) == read_le32(le32(size), 0));
    assert(read_le32(b, 10) == read_le32(le32(54), 0));
    assert(read_le32(b, 14) == read_le32(le32(40), 0));
    assert(read_le32(b, 18) == read_le32(le32(width), 0));
    assert(read_le32(b, 22) == read_le32(le32(i32_bits(-height)), 0));
    assert(read_le16(b, 28) == read_le16(le16(24), 0));
    assert(read_le32(b, 34) == read_le32(le32(width * height * 3), 0));
}

/// Every byte of a quantized payload is 0 or 1: 0 exactly where the
/// pixel is pure white.
pub proof fn lemma_quantized_binary(pixels: Seq<u8>, k: int)
    requires
        0 <= k < pixels.len() / 3,
    ensures
        quantized(pixels).len() == pixels.len() / 3,
        quantized(pixels)[k] == 0 || quantized(pixels)[k] == 1,
        quantized(pixels)[k] == 0 <==> is_white(pixels, k),
{
}

/// In an indexed frame every payload byte is 0 or 1: 0 exactly where the
/// buffer's pixel is pure white, 1 for every other colour.
pub proof fn lemma_indexed_payload(width: int, height: int, pixels: Seq<u8>)
    requires
        frame_fits(width, height),
        pixels.len() == width * height * 3,
    ensures
        ({
            let b = frame_bytes(width, height, PixelFormat::Indexed, pixels);
            &&& b.len() == 14 + 40 + 32 + width * height
            &&& read_le32(b, 2) == b.len()
            &&& read_le32(b, 10) == 86
            &&& read_le16(b, 28) == 8
            &&& b.subrange(86, b.len() as int) == quantized(pixels)
            &&& forall|k: int|
                0 <= k < width * height ==> {
                    &&& (b[86 + k] == 0 || b[86 + k] == 1)
                    &&& (b[86 + k] == 0 <==> is_white(pixels, k))
                }
        }),
{
    let f = PixelFormat::Indexed;
    let b = frame_bytes(width, height, f, pixels);
    let fh = file_header_bytes(width, height, f);
    let ih = info_header_bytes(width, height, f);
    let q = quantized(pixels);
    let n = width * height;
    assert(pixels.len() / 3 == n);
    let size = 86 + n;
    lemma_le32_round_trip(size);
    lemma_le32_round_trip(86);
    lemma_le16_round_trip(8);
    assert(fh.len() == 14);
    assert(ih.len() == 40);
    assert(q.len() == n);
    assert(b == fh + ih + palette_bytes() + q);
    assert(b.len() == 86 + n);
    assert(b.subrange(86, b.len() as int) =~= q);
    assert(read_le32(b, 2) == read_le32(le32(size), 0));
    assert(read_le32(b, 10) == read_le32(le32(86), 0));
    assert(read_le16(b, 28) == read_le16(le16(8), 0));
    assert forall|k: int| 0 <= k < n implies {
        &&& (b[86 + k] == 0 || b[86 + k] == 1)
        &&& (b[86 + k] == 0 <==> is_white(pixels, k))
    } by {
        assert(b[86 + k] == q[k]);
        lemma_quantized_binary(pixels, k);
    }
}

} // verus!
