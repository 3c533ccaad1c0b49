//! The pixel surface: a packed RGBA byte buffer of `width * height` pixels
//! with read/write/clear/resize operations and "over" alpha compositing.

use vstd::prelude::*;
use vstd::pervasive::VecAdditionalExecFns;

verus! {

/// Failures of canvas operations.
#[derive(Clone, Copy, Debug, PartialEq, Eq, Structural)]
pub enum CanvasError {
    /// A pixel coordinate with `x >= width` or `y >= height`.
    OutOfBounds,
    /// A normalized color channel outside the range `[0, 1]`.
    InvalidColorComponent,
}

/// Mathematical model of a canvas: the flat pixel byte sequence (4 bytes per
/// pixel, row-major, R G B A), the dimensions, and the remembered clear color.
pub ghost struct CanvasView {
    pub pixels: Seq<u8>,
    pub width: int,
    pub height: int,
    pub clear_color: Seq<u8>,
}

impl CanvasView {
    /// The canvas invariant: positive dimensions, a capacity that fits `u32`,
    /// a buffer of exactly `width * height * 4` bytes, and an RGB clear color.
    pub open spec fn wf(self) -> bool {
        &&& 0 < self.width
        &&& 0 < self.height
        &&& self.width * self.height * 4 <= u32::MAX
        &&& self.pixels.len() == self.width * self.height * 4
        &&& self.clear_color.len() == 3
    }
}

/// True when `(x, y)` addresses a pixel of a `width` by `height` surface.
pub open spec fn in_canvas(x: int, y: int, width: int, height: int) -> bool {
    x < width && y < height
}

/// Byte offset of pixel `(x, y)` in the flat buffer.
pub open spec fn pixel_index(x: int, y: int, width: int) -> int {
    4 * (y * width + x)
}

/// A `4 * n` byte buffer in which every pixel carries the RGB `clear` color
/// at full opacity.
pub open spec fn cleared_pixels(n: int, clear: Seq<u8>) -> Seq<u8> {
    Seq::new((4 * n) as nat, |i: int| if i % 4 == 3 { 255u8 } else { clear[i % 4] })
}

/// The buffer `p` with the four bytes of the pixel starting at offset `i`
/// replaced by `r, g, b, a`.
pub open spec fn written_pixel(p: Seq<u8>, i: int, r: u8, g: u8, b: u8, a: u8) -> Seq<u8> {
    p.update(i, r).update(i + 1, g).update(i + 2, b).update(i + 3, a)
}

/// Bounds needed for pixel addressing: the flat index (as the executable
/// code computes it) equals `pixel_index`, and it fits the buffer.
proof fn lemma_pixel_index(x: int, y: int, w: int, h: int)
    requires
        0 <= x < w,
        0 <= y < h,
    ensures
        y * 4 * w + x * 4 == pixel_index(x, y, w),
        0 <= pixel_index(x, y, w),
        pixel_index(x, y, w) + 3 < 4 * (w * h),
        y * 4 <= 4 * (w * h),
        y * 4 * w <= 4 * (w * h),
{
    assert(y * w + x < w * h && y * 4 * w + x * 4 == 4 * (y * w + x) && y * 4 <= 4 * (w * h)
        && y * 4 * w <= 4 * (w * h)) by (nonlinear_arith)
        requires
            0 <= x < w,
            0 <= y < h,
    ;
}

/// Scaled numerator of the composited ("over") alpha.
///
/// With normalized alphas `p = aa/255` (source) and `q = ba/255`
/// (destination), the composited alpha is `p + q * (1 - p)`; multiplying by
/// `255 * 255` gives this integer. It is zero exactly when both alphas are
/// zero.
pub open spec fn blend_alpha_num(aa: u8, ba: u8) -> int {
    255 * (aa as int) + (ba as int) * (255 - aa as int)
}

/// The stored byte of one color channel after compositing source channel
/// `ac` with alpha `aa` over destination channel `bc` with alpha `ba`.
///
/// This is the non-premultiplied "over" formula
/// `(a*p + b*q*(1-p)) / (p + q*(1-p))` on normalized channels, scaled back
/// to a byte and truncated: numerator and denominator are both multiplied
/// by `255 * 255 * 255`, so the integer division below performs exactly
/// that truncation.
pub open spec fn blend_channel(ac: u8, aa: u8, bc: u8, ba: u8) -> int {
    (255 * (aa as int) * (ac as int) + (ba as int) * (255 - aa as int) * (bc as int))
        / blend_alpha_num(aa, ba)
}

/// The stored alpha byte after compositing: the composited alpha scaled to
/// a byte and truncated.
pub open spec fn blend_alpha(aa: u8, ba: u8) -> int {
    blend_alpha_num(aa, ba) / 255
}

/// The buffer after compositing the color `(r, g, b, a)` over the pixel at
/// byte offset `i`. When source and destination are both fully transparent
/// the composited alpha is zero and the channel quotients are undefined;
/// the pixel is left unchanged in that case.
pub open spec fn blended_pixels(p: Seq<u8>, i: int, r: u8, g: u8, b: u8, a: u8) -> Seq<u8> {
    let ba = p[i + 3];
    if a == 0 && ba == 0 {
        p
    } else {
        written_pixel(
            p,
            i,
            blend_channel(r, a, p[i], ba) as u8,
            blend_channel(g, a, p[i + 1], ba) as u8,
            blend_channel(b, a, p[i + 2], ba) as u8,
            blend_alpha(a, ba) as u8,
        )
    }
}

/// Composited channel and alpha bytes stay in `[0, 255]`.
pub proof fn lemma_blend_bounds(ac: u8, aa: u8, bc: u8, ba: u8)
    requires
        blend_alpha_num(aa, ba) > 0,
    ensures
        0 <= blend_channel(ac, aa, bc, ba) <= 255,
        0 <= blend_alpha(aa, ba) <= 255,
{
    let n = blend_alpha_num(aa, ba);
    let num = 255 * (aa as int) * (ac as int) + (ba as int) * (255 - aa as int) * (bc as int);
    assert(0 <= num <= 255 * n && n <= 255 * 255) by (nonlinear_arith)
        requires
            n == 255 * (aa as int) + (ba as int) * (255 - aa as int),
            num == 255 * (aa as int) * (ac as int) + (ba as int) * (255 - aa as int) * (bc as int),
            aa <= 255,
            ba <= 255,
            ac <= 255,
            bc <= 255,
    ;
    vstd::arithmetic::div_mod::lemma_div_pos_is_pos(num, n);
    vstd::arithmetic::div_mod::lemma_div_is_ordered(num, 255 * n, n);
    vstd::arithmetic::div_mod::lemma_div_multiples_vanish(255, n);
    vstd::arithmetic::div_mod::lemma_div_pos_is_pos(n, 255);
    vstd::arithmetic::div_mod::lemma_div_is_ordered(n, 255int * 255, 255);
    vstd::arithmetic::div_mod::lemma_div_multiples_vanish(255, 255);
}

/// Law: an opaque source channel replaces the destination channel exactly,
/// whatever the destination held, and the composited alpha is full.
pub proof fn lemma_blend_opaque(ac: u8, bc: u8, ba: u8)
    ensures
        blend_channel(ac, 255, bc, ba) == ac,
        blend_alpha(255, ba) == 255,
{
    assert(blend_alpha_num(255, ba) == 255 * 255);
    vstd::arithmetic::div_mod::lemma_div_multiples_vanish(ac as int, 255int * 255);
    vstd::arithmetic::div_mod::lemma_div_multiples_vanish(255, 255);
}

/// Law: a fully transparent source leaves the destination channel and alpha
/// exactly unchanged (when the destination is not itself fully transparent;
/// in that case the whole pixel is left alone by `blended_pixels`).
pub proof fn lemma_blend_zero_alpha(ac: u8, bc: u8, ba: u8)
    requires
        ba > 0,
    ensures
        blend_channel(ac, 0, bc, ba) == bc,
        blend_alpha(0, ba) == ba,
{
    assert(blend_alpha_num(0, ba) == 255 * (ba as int));
    assert(255 * (0 as int) * (ac as int) + (ba as int) * (255 - 0) * (bc as int) == (255 * (
    ba as int)) * (bc as int));
    vstd::arithmetic::div_mod::lemma_div_multiples_vanish(bc as int, 255 * (ba as int));
    vstd::arithmetic::div_mod::lemma_div_multiples_vanish(ba as int, 255);
}

/// Law: compositing an opaque color over any pixel overwrites that pixel
/// with the color at full opacity, exactly as `write_pixel` would.
pub proof fn lemma_blend_opaque_overwrites(p: Seq<u8>, i: int, r: u8, g: u8, b: u8)
    requires
        0 <= i,
        i + 3 < p.len(),
    ensures
        blended_pixels(p, i, r, g, b, 255) == written_pixel(p, i, r, g, b, 255),
{
    lemma_blend_opaque(r, p[i] as u8, p[i + 3] as u8);
    lemma_blend_opaque(g, p[i + 1] as u8, p[i + 3] as u8);
    lemma_blend_opaque(b, p[i + 2] as u8, p[i + 3] as u8);
}

/// Law: compositing a color with zero alpha leaves the buffer unchanged,
/// whatever color channels the source carried.
pub proof fn lemma_blend_zero_alpha_noop(p: Seq<u8>, i: int, r: u8, g: u8, b: u8)
    requires
        0 <= i,
        i + 3 < p.len(),
    ensures
        blended_pixels(p, i, r, g, b, 0) == p,
{
    let ba = p[i + 3];
    if ba != 0 {
        lemma_blend_zero_alpha(r, p[i], ba);
        lemma_blend_zero_alpha(g, p[i + 1], ba);
        lemma_blend_zero_alpha(b, p[i + 2], ba);
        assert(written_pixel(p, i, p[i], p[i + 1], p[i + 2], ba) =~= p);
    }
}

/// Law: reading a pixel straight after writing it yields exactly the
/// written color, at full opacity, whatever the buffer held before.
pub proof fn lemma_write_read_round_trip(p: Seq<u8>, i: int, r: u8, g: u8, b: u8)
    requires
        0 <= i,
        i + 3 < p.len(),
    ensures
        written_pixel(p, i, r, g, b, 255).subrange(i, i + 3) == seq![r, g, b],
        written_pixel(p, i, r, g, b, 255)[i + 3] == 255,
{
    assert(written_pixel(p, i, r, g, b, 255).subrange(i, i + 3) =~= seq![r, g, b]);
}

/// One normalized color channel, held as the exact fraction `num / den`.
///
/// The host deals in real-valued channels; this library holds such a
/// channel as an exact rational, so that range checking and scaling to a
/// byte are exact integer arithmetic. A caller converts its real value to
/// a fraction (every binary floating-point value is one) and converts
/// back on the way out.
#[derive(Clone, Copy, Debug, PartialEq, Eq, Structural)]
pub struct ChannelValue {
    pub num: i64,
    pub den: i64,
}

impl ChannelValue {
    /// The channel is a well-formed fraction (positive denominator) whose
    /// value lies in `[0, 1]`.
    pub open spec fn is_valid(self) -> bool {
        0 < self.den && 0 <= self.num <= self.den
    }

    /// The byte a valid channel scales to: `trunc(value * 255)`.
    pub open spec fn as_byte(self) -> int {
        (self.num as int) * 255 / (self.den as int)
    }

    /// True exactly when the channel lies in `[0, 1]`.
    pub fn valid(&self) -> (r: bool)
        ensures
            r == self.is_valid(),
    {
        0 < self.den && 0 <= self.num && self.num <= self.den
    }

    /// Scale a valid channel to its stored byte, truncating.
    pub fn to_byte(&self) -> (r: u8)
        requires
            self.is_valid(),
        ensures
            r == self.as_byte(),
    {
        proof {
            vstd::arithmetic::div_mod::lemma_div_pos_is_pos(
                (self.num as int) * 255,
                self.den as int,
            );
            vstd::arithmetic::div_mod::lemma_div_is_ordered(
                (self.num as int) * 255,
                (self.den as int) * 255,
                self.den as int,
            );
            vstd::arithmetic::div_mod::lemma_div_multiples_vanish(255, self.den as int);
        }
        let n = self.num as u64;
        let d = self.den as u64;
        ((n as u128 * 255) / (d as u128)) as u8
    }
}

/// The bounds check shared by every per-pixel operation: `Ok` exactly when
/// `(x, y)` lies inside a `width` by `height` surface.
pub fn assert_pixel(x: u32, y: u32, width: u32, height: u32) -> (r: Result<(), CanvasError>)
    ensures
        match r {
            Ok(()) => in_canvas(x as int, y as int, width as int, height as int),
            Err(e) => {
                &&& e == CanvasError::OutOfBounds
                &&& !in_canvas(x as int, y as int, width as int, height as int)
            },
        },
{
    if x < width && y < height {
        Ok(())
    } else {
        Err(CanvasError::OutOfBounds)
    }
}

/// A zero-filled byte buffer of the given length.
fn zero_buffer(capacity: u32) -> (r: Vec<u8>)
    ensures
        r@.len() == capacity,
        forall|i: int| 0 <= i < r@.len() ==> r@[i] == 0u8,
{
    let mut pixels: Vec<u8> = Vec::new();
    while pixels.len() < capacity as usize
        invariant
            pixels@.len() <= capacity,
            forall|i: int| 0 <= i < pixels@.len() ==> pixels@[i] == 0u8,
        decreases capacity as usize - pixels.len(),
    {
        pixels.push(0);
    }
    pixels
}

/// The screen of pixels that user code draws into each frame.
pub struct Canvas {
    pixels: Vec<u8>,
    width: u32,
    height: u32,
    last_clear_color: [u8; 3],
}

impl View for Canvas {
    type V = CanvasView;

    closed spec fn view(&self) -> CanvasView {
        CanvasView {
            pixels: self.pixels@,
            width: self.width as int,
            height: self.height as int,
            clear_color: self.last_clear_color@,
        }
    }
}

impl Canvas {
    /// Create a new canvas of the given size, zero-filled (fully transparent
    /// black), with black as the remembered clear color.
    pub fn new(width: u32, height: u32) -> (c: Canvas)
        requires
            0 < width,
            0 < height,
            width * height * 4 <= u32::MAX,
        ensures
            c@.wf(),
            c@.width == width,
            c@.height == height,
            c@.pixels == Seq::new((width * height * 4) as nat, |i: int| 0u8),
            c@.clear_color == seq![0u8, 0u8, 0u8],
    {
        proof {
            assert(width * height <= width * height * 4) by (nonlinear_arith)
                requires 0 < width && 0 < height;
        }
        let capacity = width * height * 4;
        let pixels = zero_buffer(capacity);
        let c = Canvas { pixels, width, height, last_clear_color: [0, 0, 0] };
        proof {
            assert(c@.clear_color =~= seq![0u8, 0u8, 0u8]);
            assert(c@.pixels =~= Seq::new((width * height * 4) as nat, |i: int| 0u8));
        }
        c
    }

    /// `width * height * 4`: the byte capacity of the pixel buffer.
    pub fn capacity(&self) -> (r: u32)
        requires
            self@.wf(),
        ensures
            r == self@.width * self@.height * 4,
    {
        self.width * self.height * 4
    }

    /// Canvas width in pixels.
    pub fn width(&self) -> (r: u32)
        ensures
            r == self@.width,
    {
        self.width
    }

    /// Canvas height in pixels.
    pub fn height(&self) -> (r: u32)
        ensures
            r == self@.height,
    {
        self.height
    }

    /// A copy of the pixel buffer, taken at call time.
    pub fn get_pixel_buffer(&self) -> (r: Vec<u8>)
        ensures
            r@ == self@.pixels,
    {
        self.pixels.clone()
    }

    /// The RGB channels of the pixel at `(x, y)`, or `OutOfBounds`.
    pub fn pixel_rgb(&self, x: u32, y: u32) -> (r: Result<[u8; 3], CanvasError>)
        requires
            self@.wf(),
        ensures
            match r {
                Ok(c) => {
                    &&& in_canvas(x as int, y as int, self@.width, self@.height)
                    &&& c@ == self@.pixels.subrange(
                        pixel_index(x as int, y as int, self@.width),
                        pixel_index(x as int, y as int, self@.width) + 3,
                    )
                },
                Err(e) => {
                    &&& e == CanvasError::OutOfBounds
                    &&& !in_canvas(x as int, y as int, self@.width, self@.height)
                },
            },
    {
        if x >= self.width || y >= self.height {
            return Err(CanvasError::OutOfBounds);
        }
        proof {
            lemma_pixel_index(x as int, y as int, self@.width, self@.height);
        }
        let index = (y * 4 * self.width + x * 4) as usize;
        let c = [self.pixels[index], self.pixels[index + 1], self.pixels[index + 2]];
        proof {
            assert(c@ =~= self@.pixels.subrange(
                pixel_index(x as int, y as int, self@.width),
                pixel_index(x as int, y as int, self@.width) + 3,
            ));
        }
        Ok(c)
    }

    /// The RGBA channels of the pixel at `(x, y)`, or `OutOfBounds`.
    pub fn pixel_rgba(&self, x: u32, y: u32) -> (r: Result<[u8; 4], CanvasError>)
        requires
            self@.wf(),
        ensures
            match r {
                Ok(c) => {
                    &&& in_canvas(x as int, y as int, self@.width, self@.height)
                    &&& c@ == self@.pixels.subrange(
                        pixel_index(x as int, y as int, self@.width),
                        pixel_index(x as int, y as int, self@.width) + 4,
                    )
                },
                Err(e) => {
                    &&& e == CanvasError::OutOfBounds
                    &&& !in_canvas(x as int, y as int, self@.width, self@.height)
                },
            },
    {
        if x >= self.width || y >= self.height {
            return Err(CanvasError::OutOfBounds);
        }
        proof {
            lemma_pixel_index(x as int, y as int, self@.width, self@.height);
        }
        let index = (y * 4 * self.width + x * 4) as usize;
        let c = [
            self.pixels[index],
            self.pixels[index + 1],
            self.pixels[index + 2],
            self.pixels[index + 3],
        ];
        proof {
            assert(c@ =~= self@.pixels.subrange(
                pixel_index(x as int, y as int, self@.width),
                pixel_index(x as int, y as int, self@.width) + 4,
            ));
        }
        Ok(c)
    }

    /// The RGB channels of the pixel at `(x, y)` as normalized fractions
    /// (each byte over 255), or `OutOfBounds`.
    pub fn pixel_rgb_f32(&self, x: u32, y: u32) -> (r: Result<[ChannelValue; 3], CanvasError>)
        requires
            self@.wf(),
        ensures
            match r {
                Ok(c) => {
                    &&& in_canvas(x as int, y as int, self@.width, self@.height)
                    &&& c@ == self@.pixels.subrange(
                        pixel_index(x as int, y as int, self@.width),
                        pixel_index(x as int, y as int, self@.width) + 3,
                    ).map_values(|b: u8| ChannelValue { num: b as i64, den: 255 })
                },
                Err(e) => {
                    &&& e == CanvasError::OutOfBounds
                    &&& !in_canvas(x as int, y as int, self@.width, self@.height)
                },
            },
    {
        let bytes = self.pixel_rgb(x, y)?;
        let c = [
            ChannelValue { num: bytes[0] as i64, den: 255 },
            ChannelValue { num: bytes[1] as i64, den: 255 },
            ChannelValue { num: bytes[2] as i64, den: 255 },
        ];
        proof {
            assert(c@ =~= self@.pixels.subrange(
                pixel_index(x as int, y as int, self@.width),
                pixel_index(x as int, y as int, self@.width) + 3,
            ).map_values(|b: u8| ChannelValue { num: b as i64, den: 255 }));
        }
        Ok(c)
    }

    /// The RGBA channels of the pixel at `(x, y)` as normalized fractions
    /// (each byte over 255), or `OutOfBounds`.
    pub fn pixel_rgba_f32(&self, x: u32, y: u32) -> (r: Result<[ChannelValue; 4], CanvasError>)
        requires
            self@.wf(),
        ensures
            match r {
                Ok(c) => {
                    &&& in_canvas(x as int, y as int, self@.width, self@.height)
                    &&& c@ == self@.pixels.subrange(
                        pixel_index(x as int, y as int, self@.width),
                        pixel_index(x as int, y as int, self@.width) + 4,
                    ).map_values(|b: u8| ChannelValue { num: b as i64, den: 255 })
                },
                Err(e) => {
                    &&& e == CanvasError::OutOfBounds
                    &&& !in_canvas(x as int, y as int, self@.width, self@.height)
                },
            },
    {
        let bytes = self.pixel_rgba(x, y)?;
        let c = [
            ChannelValue { num: bytes[0] as i64, den: 255 },
            ChannelValue { num: bytes[1] as i64, den: 255 },
            ChannelValue { num: bytes[2] as i64, den: 255 },
            ChannelValue { num: bytes[3] as i64, den: 255 },
        ];
        proof {
            assert(c@ =~= self@.pixels.subrange(
                pixel_index(x as int, y as int, self@.width),
                pixel_index(x as int, y as int, self@.width) + 4,
            ).map_values(|b: u8| ChannelValue { num: b as i64, den: 255 }));
        }
        Ok(c)
    }

    /// Overwrite the pixel at `(x, y)` with the RGB color at full opacity,
    /// or fail with `OutOfBounds` leaving the canvas unchanged.
    pub fn write_pixel(&mut self, x: u32, y: u32, color: &[u8; 3]) -> (r: Result<
        (),
        CanvasError,
    >)
        requires
            old(self)@.wf(),
        ensures
            final(self)@.wf(),
            final(self)@.width == old(self)@.width,
            final(self)@.height == old(self)@.height,
            final(self)@.clear_color == old(self)@.clear_color,
            match r {
                Ok(()) => {
                    &&& in_canvas(x as int, y as int, old(self)@.width, old(self)@.height)
                    &&& final(self)@.pixels == written_pixel(
                        old(self)@.pixels,
                        pixel_index(x as int, y as int, old(self)@.width),
                        color[0],
                        color[1],
                        color[2],
                        255u8,
                    )
                },
                Err(e) => {
                    &&& e == CanvasError::OutOfBounds
                    &&& !in_canvas(x as int, y as int, old(self)@.width, old(self)@.height)
                    &&& final(self)@ == old(self)@
                },
            },
    {
        if x >= self.width || y >= self.height {
            return Err(CanvasError::OutOfBounds);
        }
        proof {
            lemma_pixel_index(x as int, y as int, self@.width, self@.height);
        }
        let index = (y * 4 * self.width + x * 4) as usize;
        self.pixels.set(index, color[0]);
        self.pixels.set(index + 1, color[1]);
        self.pixels.set(index + 2, color[2]);
        self.pixels.set(index + 3, 255);
        Ok(())
    }

    /// Composite the non-premultiplied RGBA color over the pixel at
    /// `(x, y)` ("over" alpha blending, channels truncated to bytes), or
    /// fail with `OutOfBounds` leaving the canvas unchanged. When source
    /// and destination are both fully transparent the pixel is left
    /// unchanged.
    pub fn write_pixel_blend(&mut self, x: u32, y: u32, color: &[u8; 4]) -> (r: Result<
        (),
        CanvasError,
    >)
        requires
            old(self)@.wf(),
        ensures
            final(self)@.wf(),
            final(self)@.width == old(self)@.width,
            final(self)@.height == old(self)@.height,
            final(self)@.clear_color == old(self)@.clear_color,
            match r {
                Ok(()) => {
                    &&& in_canvas(x as int, y as int, old(self)@.width, old(self)@.height)
                    &&& final(self)@.pixels == blended_pixels(
                        old(self)@.pixels,
                        pixel_index(x as int, y as int, old(self)@.width),
                        color[0],
                        color[1],
                        color[2],
                        color[3],
                    )
                },
                Err(e) => {
                    &&& e == CanvasError::OutOfBounds
                    &&& !in_canvas(x as int, y as int, old(self)@.width, old(self)@.height)
                    &&& final(self)@ == old(self)@
                },
            },
    {
        if x >= self.width || y >= self.height {
            return Err(CanvasError::OutOfBounds);
        }
        proof {
            lemma_pixel_index(x as int, y as int, self@.width, self@.height);
        }
        let index = (y * 4 * self.width + x * 4) as usize;

        let aa = color[3] as u32;
        let ba = self.pixels[index + 3] as u32;
        proof {
            assert(ba * (255 - aa) <= 65025) by (nonlinear_arith)
                requires ba <= 255 && aa <= 255;
        }
        let alpha_num = 255 * aa + ba * (255 - aa);
        if alpha_num == 0 {
            // Source and destination are both fully transparent: the
            // composited alpha is zero, so leave the pixel unchanged.
            proof {
                assert(aa == 0 && ba == 0) by (nonlinear_arith)
                    requires
                        255 * aa + ba * (255 - aa) == 0,
                        aa <= 255,
                        ba <= 255,
                ;
                assert(self@.pixels =~= blended_pixels(
                    old(self)@.pixels,
                    pixel_index(x as int, y as int, old(self)@.width),
                    color[0],
                    color[1],
                    color[2],
                    color[3],
                ));
            }
            return Ok(());
        }

        let src_weight = 255 * aa;
        let dst_weight = ba * (255 - aa);
        proof {
            assert(!(aa == 0 && ba == 0)) by (nonlinear_arith)
                requires 255 * aa + ba * (255 - aa) != 0;
            assert(src_weight * 255 <= 16581375 && dst_weight <= 65025 && dst_weight * 255
                <= 16581375) by (nonlinear_arith)
                requires
                    src_weight == 255 * aa,
                    dst_weight == ba * (255 - aa),
                    aa <= 255,
                    ba <= 255,
            ;
            assert(src_weight * (color[0] as u32) <= src_weight * 255
                && src_weight * (color[1] as u32) <= src_weight * 255
                && src_weight * (color[2] as u32) <= src_weight * 255) by (nonlinear_arith)
                requires
                    color[0] <= 255 && color[1] <= 255 && color[2] <= 255 && src_weight >= 0,
            ;
            assert(dst_weight * (self@.pixels[index as int] as u32) <= dst_weight * 255
                && dst_weight * (self@.pixels[index as int + 1] as u32) <= dst_weight * 255
                && dst_weight * (self@.pixels[index as int + 2] as u32) <= dst_weight * 255)
                by (nonlinear_arith)
                requires
                    self@.pixels[index as int] <= 255 && self@.pixels[index as int + 1] <= 255
                        && self@.pixels[index as int + 2] <= 255 && dst_weight >= 0,
            ;
            lemma_blend_bounds(color[0], color[3], self@.pixels[index as int] as u8, ba as u8);
            lemma_blend_bounds(color[1], color[3], self@.pixels[index as int + 1] as u8, ba as u8);
            lemma_blend_bounds(color[2], color[3], self@.pixels[index as int + 2] as u8, ba as u8);
        }
        let out_r = (src_weight * (color[0] as u32) + dst_weight * (self.pixels[index] as u32))
            / alpha_num;
        let out_g = (src_weight * (color[1] as u32) + dst_weight * (self.pixels[index + 1] as u32))
            / alpha_num;
        let out_b = (src_weight * (color[2] as u32) + dst_weight * (self.pixels[index + 2] as u32))
            / alpha_num;
        let out_a = alpha_num / 255;

        self.pixels.set(index, out_r as u8);
        self.pixels.set(index + 1, out_g as u8);
        self.pixels.set(index + 2, out_b as u8);
        self.pixels.set(index + 3, out_a as u8);
        proof {
            assert(self@.pixels =~= blended_pixels(
                old(self)@.pixels,
                pixel_index(x as int, y as int, old(self)@.width),
                color[0],
                color[1],
                color[2],
                color[3],
            ));
        }
        Ok(())
    }

    /// Set every pixel to the given RGB color at full opacity and remember
    /// the color for future `resize` calls.
    pub fn clear_screen(&mut self, color: &[u8; 3])
        requires
            old(self)@.wf(),
        ensures
            final(self)@.wf(),
            final(self)@.width == old(self)@.width,
            final(self)@.height == old(self)@.height,
            final(self)@.clear_color == color@,
            final(self)@.pixels == cleared_pixels(old(self)@.width * old(self)@.height, color@),
    {
        let ghost orig = self@;
        proof {
            assert(orig.width * orig.height <= orig.width * orig.height * 4
                && 4 * (orig.width * orig.height) == orig.width * orig.height * 4)
                by (nonlinear_arith)
                requires 0 < orig.width && 0 < orig.height;
        }
        let n_pixels = self.width * self.height;
        let mut p: u32 = 0;
        while p < n_pixels
            invariant
                orig.wf(),
                p <= n_pixels,
                n_pixels == orig.width * orig.height,
                self.width == orig.width,
                self.height == orig.height,
                self@.pixels.len() == 4 * n_pixels,
                forall|i: int|
                    0 <= i < 4 * p ==> self@.pixels[i] == (if i % 4 == 3 {
                        255u8
                    } else {
                        color[i % 4]
                    }),
            decreases n_pixels - p,
        {
            let base = (p * 4) as usize;
            self.pixels.set(base, color[0]);
            self.pixels.set(base + 1, color[1]);
            self.pixels.set(base + 2, color[2]);
            self.pixels.set(base + 3, 255);
            proof {
                assert forall|i: int| 0 <= i < 4 * (p + 1) implies self@.pixels[i] == (if i % 4
                    == 3 {
                    255u8
                } else {
                    color[i % 4]
                }) by {
                    if 4 * p <= i {
                        assert(i == 4 * p || i == 4 * p + 1 || i == 4 * p + 2 || i == 4 * p + 3);
                    }
                }
            }
            p = p + 1;
        }
        self.last_clear_color = [color[0], color[1], color[2]];
        proof {
            assert(self@.pixels =~= cleared_pixels(orig.width * orig.height, color@));
            assert(self@.clear_color =~= color@);
        }
    }

    /// Remember a clear color for future `clear_screen`-on-`resize` calls
    /// without touching the pixels.
    pub fn set_clear_color(&mut self, color: &[u8; 3])
        ensures
            final(self)@.wf() == old(self)@.wf(),
            final(self)@.width == old(self)@.width,
            final(self)@.height == old(self)@.height,
            final(self)@.pixels == old(self)@.pixels,
            final(self)@.clear_color == color@,
    {
        self.last_clear_color = [color[0], color[1], color[2]];
        proof {
            assert(self@.clear_color =~= color@);
        }
    }

    /// Overwrite the pixel at `(x, y)` with a normalized RGB color at full
    /// opacity. Fails with `OutOfBounds` on an invalid coordinate and with
    /// `InvalidColorComponent` when a channel lies outside `[0, 1]`; either
    /// failure leaves the canvas unchanged.
    pub fn write_pixel_f32(&mut self, x: u32, y: u32, color: &[ChannelValue; 3]) -> (r: Result<
        (),
        CanvasError,
    >)
        requires
            old(self)@.wf(),
        ensures
            final(self)@.wf(),
            final(self)@.width == old(self)@.width,
            final(self)@.height == old(self)@.height,
            final(self)@.clear_color == old(self)@.clear_color,
            match r {
                Ok(()) => {
                    &&& in_canvas(x as int, y as int, old(self)@.width, old(self)@.height)
                    &&& color[0].is_valid() && color[1].is_valid() && color[2].is_valid()
                    &&& final(self)@.pixels == written_pixel(
                        old(self)@.pixels,
                        pixel_index(x as int, y as int, old(self)@.width),
                        color[0].as_byte() as u8,
                        color[1].as_byte() as u8,
                        color[2].as_byte() as u8,
                        255u8,
                    )
                },
                Err(e) => {
                    &&& final(self)@ == old(self)@
                    &&& (e == CanvasError::OutOfBounds <==> !in_canvas(
                        x as int,
                        y as int,
                        old(self)@.width,
                        old(self)@.height,
                    ))
                    &&& (e == CanvasError::InvalidColorComponent ==> !(color[0].is_valid()
                        && color[1].is_valid() && color[2].is_valid()))
                },
            },
    {
        if let Err(e) = assert_pixel(x, y, self.width, self.height) {
            return Err(e);
        }
        if !(color[0].valid() && color[1].valid() && color[2].valid()) {
            return Err(CanvasError::InvalidColorComponent);
        }
        let bytes = [color[0].to_byte(), color[1].to_byte(), color[2].to_byte()];
        self.write_pixel(x, y, &bytes)
    }

    /// Composite a normalized non-premultiplied RGBA color over the pixel
    /// at `(x, y)`. Fails with `OutOfBounds` on an invalid coordinate and
    /// with `InvalidColorComponent` when a channel lies outside `[0, 1]`;
    /// either failure leaves the canvas unchanged.
    pub fn write_pixel_blend_f32(&mut self, x: u32, y: u32, color: &[ChannelValue; 4]) -> (r:
        Result<(), CanvasError>)
        requires
            old(self)@.wf(),
        ensures
            final(self)@.wf(),
            final(self)@.width == old(self)@.width,
            final(self)@.height == old(self)@.height,
            final(self)@.clear_color == old(self)@.clear_color,
            match r {
                Ok(()) => {
                    &&& in_canvas(x as int, y as int, old(self)@.width, old(self)@.height)
                    &&& color[0].is_valid() && color[1].is_valid() && color[2].is_valid()
                        && color[3].is_valid()
                    &&& final(self)@.pixels == blended_pixels(
                        old(self)@.pixels,
                        pixel_index(x as int, y as int, old(self)@.width),
                        color[0].as_byte() as u8,
                        color[1].as_byte() as u8,
                        color[2].as_byte() as u8,
                        color[3].as_byte() as u8,
                    )
                },
                Err(e) => {
                    &&& final(self)@ == old(self)@
                    &&& (e == CanvasError::OutOfBounds <==> !in_canvas(
                        x as int,
                        y as int,
                        old(self)@.width,
                        old(self)@.height,
                    ))
                    &&& (e == CanvasError::InvalidColorComponent ==> !(color[0].is_valid()
                        && color[1].is_valid() && color[2].is_valid() && color[3].is_valid()))
                },
            },
    {
        if let Err(e) = assert_pixel(x, y, self.width, self.height) {
            return Err(e);
        }
        if !(color[0].valid() && color[1].valid() && color[2].valid() && color[3].valid()) {
            return Err(CanvasError::InvalidColorComponent);
        }
        let bytes = [
            color[0].to_byte(),
            color[1].to_byte(),
            color[2].to_byte(),
            color[3].to_byte(),
        ];
        self.write_pixel_blend(x, y, &bytes)
    }

    /// Clear the whole canvas to a normalized RGB color, or fail with
    /// `InvalidColorComponent` (leaving the canvas unchanged) when a
    /// channel lies outside `[0, 1]`.
    pub fn clear_screen_f32(&mut self, color: &[ChannelValue; 3]) -> (r: Result<
        (),
        CanvasError,
    >)
        requires
            old(self)@.wf(),
        ensures
            final(self)@.wf(),
            final(self)@.width == old(self)@.width,
            final(self)@.height == old(self)@.height,
            match r {
                Ok(()) => {
                    &&& color[0].is_valid() && color[1].is_valid() && color[2].is_valid()
                    &&& final(self)@.clear_color == seq![
                        color[0].as_byte() as u8,
                        color[1].as_byte() as u8,
                        color[2].as_byte() as u8,
                    ]
                    &&& final(self)@.pixels == cleared_pixels(
                        old(self)@.width * old(self)@.height,
                        final(self)@.clear_color,
                    )
                },
                Err(e) => {
                    &&& e == CanvasError::InvalidColorComponent
                    &&& !(color[0].is_valid() && color[1].is_valid() && color[2].is_valid())
                    &&& final(self)@ == old(self)@
                },
            },
    {
        if !(color[0].valid() && color[1].valid() && color[2].valid()) {
            return Err(CanvasError::InvalidColorComponent);
        }
        let bytes = [color[0].to_byte(), color[1].to_byte(), color[2].to_byte()];
        self.clear_screen(&bytes);
        proof {
            assert(self@.clear_color =~= seq![
                color[0].as_byte() as u8,
                color[1].as_byte() as u8,
                color[2].as_byte() as u8,
            ]);
        }
        Ok(())
    }

    /// Remember a normalized RGB clear color for future resizes, or fail
    /// with `InvalidColorComponent` when a channel lies outside `[0, 1]`.
    /// The pixels are untouched either way.
    pub fn set_clear_color_f32(&mut self, color: &[ChannelValue; 3]) -> (r: Result<
        (),
        CanvasError,
    >)
        requires
            old(self)@.wf(),
        ensures
            final(self)@.wf(),
            final(self)@.width == old(self)@.width,
            final(self)@.height == old(self)@.height,
            final(self)@.pixels == old(self)@.pixels,
            match r {
                Ok(()) => {
                    &&& color[0].is_valid() && color[1].is_valid() && color[2].is_valid()
                    &&& final(self)@.clear_color == seq![
                        color[0].as_byte() as u8,
                        color[1].as_byte() as u8,
                        color[2].as_byte() as u8,
                    ]
                },
                Err(e) => {
                    &&& e == CanvasError::InvalidColorComponent
                    &&& !(color[0].is_valid() && color[1].is_valid() && color[2].is_valid())
                    &&& final(self)@ == old(self)@
                },
            },
    {
        if !(color[0].valid() && color[1].valid() && color[2].valid()) {
            return Err(CanvasError::InvalidColorComponent);
        }
        let bytes = [color[0].to_byte(), color[1].to_byte(), color[2].to_byte()];
        self.set_clear_color(&bytes);
        proof {
            assert(self@.clear_color =~= seq![
                color[0].as_byte() as u8,
                color[1].as_byte() as u8,
                color[2].as_byte() as u8,
            ]);
        }
        Ok(())
    }

    /// Reallocate the buffer to the new size, then clear it with the
    /// remembered clear color. All prior pixel content is lost.
    pub fn resize(&mut self, width: u32, height: u32)
        requires
            old(self)@.wf(),
            0 < width,
            0 < height,
            width * height * 4 <= u32::MAX,
        ensures
            final(self)@.wf(),
            final(self)@.width == width,
            final(self)@.height == height,
            final(self)@.clear_color == old(self)@.clear_color,
            final(self)@.pixels == cleared_pixels(
                width as int * height as int,
                old(self)@.clear_color,
            ),
    {
        proof {
            assert(width * height <= width * height * 4) by (nonlinear_arith)
                requires 0 < width && 0 < height;
        }
        let capacity = width * height * 4;
        self.pixels = zero_buffer(capacity);
        self.width = width;
        self.height = height;
        let color = [
            self.last_clear_color[0],
            self.last_clear_color[1],
            self.last_clear_color[2],
        ];
        proof {
            assert(color@ =~= old(self)@.clear_color);
        }
        self.clear_screen(&color);
    }
}

} // verus!
