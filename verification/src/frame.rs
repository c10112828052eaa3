use vstd::prelude::*;

verus! {

/// Bytes per pixel of the tightly packed RGBA8 layout.
pub const BYTES_PER_PIXEL: u32 = 4;

/// One snapshot of pixel data: row-major RGBA8 without row padding.
pub struct Frame {
    pub data: Vec<u8>,
    pub width: u32,
    pub height: u32,
}

/// What a frame is, mathematically: its bytes and its dimensions.
pub ghost struct FrameView {
    pub data: Seq<u8>,
    pub width: u32,
    pub height: u32,
}

/// The sentinel frame: no bytes, zero by zero.
pub open spec fn empty_frame() -> FrameView {
    FrameView { data: Seq::empty(), width: 0, height: 0 }
}

/// Number of bytes that a `width` by `height` frame occupies.
pub open spec fn byte_len(width: u32, height: u32) -> int {
    width * height * 4
}

/// Offset of channel `c` of the pixel in column `x` of row `y`.
pub open spec fn channel_offset(width: u32, x: u32, y: u32, c: u32) -> int {
    4 * (y * width + x) + c
}

/// The number of pixels of a `width` by `height` image, which always fits.
pub fn pixel_count(width: u32, height: u32) -> (out: u64)
    ensures
        out == width * height,
        out <= 0xFFFF_FFFE_0000_0001,
{
    assert(0 <= width * height <= 0xFFFF_FFFF * 0xFFFF_FFFF) by (nonlinear_arith)
        requires
            0 <= width <= 0xFFFF_FFFF,
            0 <= height <= 0xFFFF_FFFF,
    ;
    (width as u64) * (height as u64)
}

impl FrameView {
    /// The bytes cover the dimensions exactly. The sentinel meets this too.
    pub open spec fn wf(self) -> bool {
        self.data.len() == byte_len(self.width, self.height)
    }
}

impl View for Frame {
    type V = FrameView;

    open spec fn view(&self) -> FrameView {
        FrameView { data: self.data@, width: self.width, height: self.height }
    }
}

/// Every in-bounds channel of a well-formed frame has its offset inside the
/// buffer, and distinct channels have distinct offsets.
pub proof fn lemma_channel_offset_in_bounds(f: FrameView, x: u32, y: u32, c: u32)
    requires
        f.wf(),
        x < f.width,
        y < f.height,
        c < 4,
    ensures
        0 <= channel_offset(f.width, x, y, c) < f.data.len(),
{
    let w = f.width as int;
    let h = f.height as int;
    let yi = y as int;
    assert(yi * w + w <= h * w) by (nonlinear_arith)
        requires
            yi + 1 <= h,
            w >= 0,
    ;
    assert(h * w == w * h) by (nonlinear_arith);
    assert(yi * w >= 0) by (nonlinear_arith)
        requires
            yi >= 0,
            w >= 0,
    ;
}

impl Frame {
    /// The bytes cover the dimensions exactly.
    pub open spec fn wf(&self) -> bool {
        self@.wf()
    }

    /// The sentinel frame.
    pub fn empty() -> (out: Frame)
        ensures
            out@ == empty_frame(),
            out.wf(),
    {
        Frame { data: Vec::new(), width: 0, height: 0 }
    }

    /// A frame over `data`, if `data` has exactly the bytes of a `width` by
    /// `height` image.
    pub fn new(data: Vec<u8>, width: u32, height: u32) -> (out: Option<Frame>)
        ensures
            out is Some <==> data@.len() == byte_len(width, height),
            out matches Some(f) ==> f@ == (FrameView { data: data@, width, height }),
    {
        let pixels: u64 = pixel_count(width, height);
        let len: u64 = data.len() as u64;
        if len % 4 == 0 && len / 4 == pixels {
            Some(Frame { data, width, height })
        } else {
            None
        }
    }

    /// Whether this is a frame without pixels.
    pub fn is_empty(&self) -> (out: bool)
        ensures
            out == (self@.data.len() == 0),
    {
        self.data.len() == 0
    }

    /// The byte of channel `c` of the pixel in column `x` of row `y`.
    pub fn channel(&self, x: u32, y: u32, c: u32) -> (out: u8)
        requires
            self.wf(),
            x < self.width,
            y < self.height,
            c < 4,
        ensures
            out == self@.data[channel_offset(self.width, x, y, c)],
    {
        proof {
            lemma_channel_offset_in_bounds(self@, x, y, c);
            let w = self.width as int;
            let yi = y as int;
            assert(yi * w >= 0) by (nonlinear_arith)
                requires
                    yi >= 0,
                    w >= 0,
            ;
            assert(channel_offset(self.width, x, y, c) == 4 * (yi * w + x) + c);
        }
        let len: usize = self.data.len();
        assert(0 <= (y as int) * (self.width as int) < len);
        let row: usize = (y as usize) * (self.width as usize);
        let at: usize = 4 * (row + x as usize) + c as usize;
        self.data[at]
    }
}

impl Clone for Frame {
    fn clone(&self) -> (out: Frame)
        ensures
            out@ == self@,
    {
        let data = self.data.clone();
        assert(data@ =~= self.data@);
        Frame { data, width: self.width, height: self.height }
    }
}

} // verus!
