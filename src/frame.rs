//! The reusable pixel buffer of one frame and the axis template that
//! clears it between frames.
use vstd::prelude::*;
use crate::bmp::BmpEncoder;

verus! {

/// One frame's pixels, three bytes each, row by row from the top. The
/// buffer is made once and reused for every frame.
pub struct PixelBuffer {
    width: usize,
    height: usize,
    data: Vec<u8>,
}

/// A copy of the buffer taken after the axes were drawn and before any
/// reading: what every frame starts from.
pub struct AxisTemplate {
    width: usize,
    height: usize,
    data: Vec<u8>,
}

impl PixelBuffer {
    /// Width in pixels.
    pub closed spec fn spec_width(&self) -> nat {
        self.width as nat
    }

    /// Height in pixels.
    pub closed spec fn spec_height(&self) -> nat {
        self.height as nat
    }

    /// The bytes of the buffer.
    pub closed spec fn pixels(&self) -> Seq<u8> {
        self.data@
    }

    pub open spec fn wf(&self) -> bool {
        self.pixels().len() == self.spec_width() * self.spec_height() * 3
    }

    /// A white `width` by `height` buffer.
    pub fn new(width: usize, height: usize) -> (r: PixelBuffer)
        requires
            width * height * 3 <= usize::MAX,
        ensures
            r.wf(),
            r.spec_width() == width,
            r.spec_height() == height,
            forall|i: int| 0 <= i < r.pixels().len() ==> r.pixels()[i] == 255,
    {
        let len = width * height * 3;
        let mut data: Vec<u8> = Vec::with_capacity(len);
        let mut i: usize = 0;
        while i < len
            invariant
                i <= len,
                data@.len() == i,
                forall|k: int| 0 <= k < i ==> data@[k] == 255,
            decreases len - i,
        {
            data.push(255);
            i = i + 1;
        }
        PixelBuffer { width, height, data }
    }

    /// Width in pixels.
    pub fn width(&self) -> (r: usize)
        ensures
            r == self.spec_width(),
    {
        self.width
    }

    /// Height in pixels.
    pub fn height(&self) -> (r: usize)
        ensures
            r == self.spec_height(),
    {
        self.height
    }

    /// The bytes of the buffer.
    pub fn pixels_ref(&self) -> (r: &[u8])
        ensures
            r@ == self.pixels(),
    {
        self.data.as_slice()
    }

    /// The bytes of the buffer, for a rasterizer to draw into.
    pub fn pixels_mut(&mut self) -> (r: &mut [u8])
        ensures
            r@ == old(self).pixels(),
            final(self).pixels() == final(r)@,
            final(self).spec_width() == old(self).spec_width(),
            final(self).spec_height() == old(self).spec_height(),
    {
        self.data.as_mut_slice()
    }

    /// Copies the buffer as it stands into the template that every
    /// later frame is reset from. Take it after the axes are drawn and
    /// before any reading.
    pub fn capture_template(&self) -> (r: AxisTemplate)
        requires
            self.wf(),
        ensures
            r.wf(),
            r.pixels() == self.pixels(),
            r.spec_width() == self.spec_width(),
            r.spec_height() == self.spec_height(),
    {
        let len = self.data.len();
        let mut data: Vec<u8> = Vec::with_capacity(len);
        let mut i: usize = 0;
        while i < len
            invariant
                len == self.data@.len(),
                i <= len,
                data@ == self.data@.subrange(0, i as int),
            decreases len - i,
        {
            data.push(self.data[i]);
            i = i + 1;
            assert(data@ =~= self.data@.subrange(0, i as int));
        }
        assert(self.data@.subrange(0, len as int) =~= self.data@);
        AxisTemplate { width: self.width, height: self.height, data }
    }

    /// Overwrites the whole buffer with the template, dropping every
    /// reading drawn since. The buffer's storage is reused.
    pub fn reset(&mut self, template: &AxisTemplate)
        requires
            template.wf(),
            template.spec_width() == old(self).spec_width(),
            template.spec_height() == old(self).spec_height(),
        ensures
            final(self).wf(),
            is_reset_of(final(self), old(self), template),
    {
        self.data.clear();
        let len = template.data.len();
        let mut i: usize = 0;
        while i < len
            invariant
                len == template.data@.len(),
                i <= len,
                self.width == old(self).width,
                self.height == old(self).height,
                self.data@ == template.data@.subrange(0, i as int),
            decreases len - i,
        {
            self.data.push(template.data[i]);
            i = i + 1;
            assert(self.data@ =~= template.data@.subrange(0, i as int));
        }
        assert(template.data@.subrange(0, len as int) =~= template.data@);
    }

    /// Appends this frame, encoded by `encoder`, to `writer`.
    pub fn write_frame(&self, encoder: &BmpEncoder, writer: &mut Vec<u8>)
        requires
            self.wf(),
            encoder.wf(),
            encoder.spec_width() == self.spec_width(),
            encoder.spec_height() == self.spec_height(),
        ensures
            final(writer)@ == old(writer)@ + encoder.frame_bytes(self.pixels()),
    {
        encoder.write_all(writer, self.data.as_slice());
    }
}

/// Whether `after` is `before` reset from `template`: the same size, and
/// holding exactly the template's bytes.
pub open spec fn is_reset_of(after: &PixelBuffer, before: &PixelBuffer, template: &AxisTemplate) -> bool {
    &&& after.spec_width() == before.spec_width()
    &&& after.spec_height() == before.spec_height()
    &&& after.pixels() == template.pixels()
}

/// Resetting twice in a row from one template leaves the same bytes both
/// times, whatever was drawn in between.
pub proof fn lemma_reset_idempotent(
    before: &PixelBuffer,
    once: &PixelBuffer,
    twice: &PixelBuffer,
    template: &AxisTemplate,
)
    requires
        is_reset_of(once, before, template),
        is_reset_of(twice, once, template),
    ensures
        twice.pixels() == once.pixels(),
        twice.spec_width() == once.spec_width(),
        twice.spec_height() == once.spec_height(),
{
}

impl AxisTemplate {
    /// Width in pixels.
    pub closed spec fn spec_width(&self) -> nat {
        self.width as nat
    }

    /// Height in pixels.
    pub closed spec fn spec_height(&self) -> nat {
        self.height as nat
    }

    /// The bytes every frame starts from.
    pub closed spec fn pixels(&self) -> Seq<u8> {
        self.data@
    }

    pub open spec fn wf(&self) -> bool {
        self.pixels().len() == self.spec_width() * self.spec_height() * 3
    }

    /// The bytes every frame starts from.
    pub fn pixels_ref(&self) -> (r: &[u8])
        ensures
            r@ == self.pixels(),
    {
        self.data.as_slice()
    }
}

} // verus!
