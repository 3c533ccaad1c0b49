//! Snapshot bookkeeping for media export: the dimensions a screenshot
//! encoder must be fed, and the accumulated frames of a recording. The
//! actual file encoding is the host's concern; it reads plain values
//! (byte buffers and dimensions) from these types.

use vstd::prelude::*;

verus! {

/// Remembers the dimensions a screenshot of the canvas must be encoded
/// with; kept in lockstep with the canvas by the per-frame driver.
pub struct ScreenshotUploader {
    width: u32,
    height: u32,
}

impl ScreenshotUploader {
    /// Mathematical model: the remembered dimensions.
    pub closed spec fn dims(&self) -> (int, int) {
        (self.width as int, self.height as int)
    }

    /// Create with the canvas's initial dimensions.
    pub fn new(width: u32, height: u32) -> (r: ScreenshotUploader)
        ensures
            r.dims() == (width as int, height as int),
    {
        ScreenshotUploader { width, height }
    }

    /// Follow a canvas resize.
    pub fn resize(&mut self, width: u32, height: u32)
        ensures
            final(self).dims() == (width as int, height as int),
    {
        self.width = width;
        self.height = height;
    }

    /// The remembered width in pixels.
    pub fn width(&self) -> (r: u32)
        ensures
            r == self.dims().0,
    {
        self.width
    }

    /// The remembered height in pixels.
    pub fn height(&self) -> (r: u32)
        ensures
            r == self.dims().1,
    {
        self.height
    }
}

/// Mathematical model of a recording: the captured frames (each a flat
/// RGBA byte buffer) and the dimensions they were captured at.
pub ghost struct GifView {
    pub frames: Seq<Seq<u8>>,
    pub width: int,
    pub height: int,
}

/// Accumulates canvas snapshots as the frames of a recording; an encoder
/// reads them back out with the dimensions to write an animation.
pub struct GifUploader {
    frames: Vec<Vec<u8>>,
    width: u32,
    height: u32,
}

impl View for GifUploader {
    type V = GifView;

    closed spec fn view(&self) -> GifView {
        GifView {
            frames: self.frames.deep_view(),
            width: self.width as int,
            height: self.height as int,
        }
    }
}

impl GifUploader {
    /// Create with the canvas's initial dimensions and no frames.
    pub fn new(width: u32, height: u32) -> (r: GifUploader)
        ensures
            r@.frames == Seq::<Seq<u8>>::empty(),
            r@.width == width,
            r@.height == height,
    {
        let r = GifUploader { frames: Vec::new(), width, height };
        proof {
            assert(r@.frames =~= Seq::<Seq<u8>>::empty());
        }
        r
    }

    /// Follow a canvas resize. Frames already recorded are kept; the
    /// driver clears them when it wants a recording at one size only.
    pub fn resize(&mut self, width: u32, height: u32)
        ensures
            final(self)@.frames == old(self)@.frames,
            final(self)@.width == width,
            final(self)@.height == height,
    {
        self.width = width;
        self.height = height;
    }

    /// Append one canvas snapshot to the recording.
    pub fn record(&mut self, pixels: Vec<u8>)
        ensures
            final(self)@.frames == old(self)@.frames.push(pixels@),
            final(self)@.width == old(self)@.width,
            final(self)@.height == old(self)@.height,
    {
        self.frames.push(pixels);
        proof {
            assert(self@.frames =~~= old(self)@.frames.push(pixels@));
        }
    }

    /// Drop all recorded frames.
    pub fn clear(&mut self)
        ensures
            final(self)@.frames == Seq::<Seq<u8>>::empty(),
            final(self)@.width == old(self)@.width,
            final(self)@.height == old(self)@.height,
    {
        self.frames.clear();
        proof {
            assert(self@.frames =~= Seq::<Seq<u8>>::empty());
        }
    }

    /// The recorded frames, oldest first, for an encoder to read.
    pub fn frames(&self) -> (r: &Vec<Vec<u8>>)
        ensures
            r.deep_view() == self@.frames,
    {
        &self.frames
    }

    /// The width the frames were captured at.
    pub fn width(&self) -> (r: u32)
        ensures
            r == self@.width,
    {
        self.width
    }

    /// The height the frames were captured at.
    pub fn height(&self) -> (r: u32)
        ensures
            r == self@.height,
    {
        self.height
    }
}

} // verus!
