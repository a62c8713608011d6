//! Decoded images as plain pixel data.
use vstd::prelude::*;

verus! {

/// How the bytes of a pixel are laid out.
#[derive(Debug, Clone, Copy, PartialEq, Eq, Structural)]
pub enum PixelLayout {
    /// Red, green, blue; one byte each.
    Rgb8,
    /// Red, green, blue, alpha; one byte each.
    Rgba8,
}

impl PixelLayout {
    /// Bytes per pixel.
    pub open spec fn channels(self) -> nat {
        match self {
            PixelLayout::Rgb8 => 3,
            PixelLayout::Rgba8 => 4,
        }
    }

    /// Bytes per pixel.
    pub fn channel_count(&self) -> (r: usize)
        ensures
            r == self.channels(),
    {
        match self {
            PixelLayout::Rgb8 => 3,
            PixelLayout::Rgba8 => 4,
        }
    }
}

/// The number of bytes that an image of the given size takes.
pub open spec fn byte_count(width: u32, height: u32, layout: PixelLayout) -> nat {
    (width as nat) * (height as nat) * layout.channels()
}

/// The RGBA bytes of RGB pixel data: every pixel gains an opaque alpha byte.
pub open spec fn with_alpha(rgb: Seq<u8>) -> Seq<u8>
    recommends
        rgb.len() % 3 == 0,
{
    Seq::new(
        (rgb.len() / 3 * 4) as nat,
        |i: int|
            if i % 4 == 3 {
                255u8
            } else {
                rgb[i / 4 * 3 + i % 4]
            },
    )
}

/// What resizing RGBA pixel data of `width` by `height` pixels to `new_width`
/// by `new_height` pixels with the nearest-neighbour filter yields.
pub uninterp spec fn nearest_resized(
    pixels: Seq<u8>,
    width: u32,
    height: u32,
    new_width: u32,
    new_height: u32,
) -> Seq<u8>;

/// Whether resizing an image `width` pixels wide to `new_width` by
/// `new_height` pixels stays within what a machine can allocate at once.
/// The resize goes through an intermediate image of `width` by `new_height`
/// pixels at sixteen bytes each, and ends in one of `new_width` by
/// `new_height` pixels at four bytes each; no allocation can be larger than
/// `isize::MAX` bytes.
pub open spec fn resize_fits(width: u32, new_width: u32, new_height: u32) -> bool {
    &&& (width as nat) * (new_height as nat) * 16 <= isize::MAX
    &&& (new_width as nat) * (new_height as nat) * 4 <= isize::MAX
}

/// Resizes RGBA pixel data with the nearest-neighbour filter.
///
/// Wraps `image::imageops::resize` with `FilterType::Nearest` on an
/// `ImageBuffer` over the given bytes.  The result has the dimensions asked
/// for, so four bytes for each pixel of them; what the bytes are is named by
/// [`nearest_resized`].  The call panics where one of its two allocations
/// is larger than a machine can make, which [`resize_fits`] rules out.
#[verifier::external_body]
fn resize_nearest(pixels: &Vec<u8>, width: u32, height: u32, new_width: u32, new_height: u32) -> (r:
    Vec<u8>)
    requires
        pixels@.len() == byte_count(width, height, PixelLayout::Rgba8),
        resize_fits(width, new_width, new_height),
    ensures
        r@ == nearest_resized(pixels@, width, height, new_width, new_height),
        r@.len() == byte_count(new_width, new_height, PixelLayout::Rgba8),
{
    let source = image::ImageBuffer::<image::Rgba<u8>, &[u8]>::from_raw(
        width,
        height,
        pixels.as_slice(),
    ).unwrap();
    image::imageops::resize(&source, new_width, new_height, image::imageops::FilterType::Nearest)
        .into_raw()
}

/// An image in memory: its size in pixels and its bytes, row by row.
#[derive(Debug)]
pub struct PixelBuffer {
    width: u32,
    height: u32,
    layout: PixelLayout,
    pixels: Vec<u8>,
}

/// The number of bytes of an image of the given size, if it fits in `usize`.
pub fn checked_byte_count(width: u32, height: u32, layout: PixelLayout) -> (r: Option<usize>)
    ensures
        match r {
            Some(n) => n == byte_count(width, height, layout),
            None => byte_count(width, height, layout) > usize::MAX,
        },
{
    proof {
        assert((width as nat) * (height as nat) <= 0xffff_ffff * 0xffff_ffff) by (nonlinear_arith)
            requires
                width <= 0xffff_ffff,
                height <= 0xffff_ffff,
        ;
    }
    let area: u64 = (width as u64) * (height as u64);
    proof {
        assert((area as nat) * layout.channels() <= 0xffff_ffff_ffff_ffff * 4) by (nonlinear_arith)
            requires
                area <= 0xffff_ffff_ffff_ffff,
                layout.channels() <= 4,
        ;
    }
    let total: u128 = (area as u128) * (layout.channel_count() as u128);
    if total <= usize::MAX as u128 {
        Some(total as usize)
    } else {
        None
    }
}

impl PixelBuffer {
    #[verifier::type_invariant]
    spec fn consistent(self) -> bool {
        self.pixels@.len() == byte_count(self.width, self.height, self.layout)
    }

    /// Width in pixels.
    pub closed spec fn spec_width(self) -> u32 {
        self.width
    }

    /// Height in pixels.
    pub closed spec fn spec_height(self) -> u32 {
        self.height
    }

    /// The layout of each pixel.
    pub closed spec fn spec_layout(self) -> PixelLayout {
        self.layout
    }

    /// The bytes, row by row.
    pub closed spec fn raw(self) -> Seq<u8> {
        self.pixels@
    }

    /// The pixel data seen as RGBA.
    pub open spec fn rgba(self) -> Seq<u8> {
        match self.spec_layout() {
            PixelLayout::Rgba8 => self.raw(),
            PixelLayout::Rgb8 => with_alpha(self.raw()),
        }
    }

    /// An image of the given size over the first bytes of `pixels`, or
    /// nothing where `pixels` holds too few bytes for it.
    pub fn from_raw(width: u32, height: u32, layout: PixelLayout, pixels: Vec<u8>) -> (r: Option<
        Self,
    >)
        ensures
            r is Some <==> pixels@.len() >= byte_count(width, height, layout),
            r matches Some(b) ==> b.spec_width() == width && b.spec_height() == height
                && b.spec_layout() == layout && b.raw() == pixels@.take(
                byte_count(width, height, layout) as int,
            ),
    {
        let given: usize = pixels.len();
        match checked_byte_count(width, height, layout) {
            Some(needed) => {
                if given >= needed {
                    let mut pixels = pixels;
                    pixels.truncate(needed);
                    Some(PixelBuffer { width, height, layout, pixels })
                } else {
                    None
                }
            },
            None => None,
        }
    }

    /// A transparent black RGBA image of the given size, or nothing where
    /// its bytes would not fit in memory.
    pub fn new(width: u32, height: u32) -> (r: Option<Self>)
        ensures
            r is Some <==> byte_count(width, height, PixelLayout::Rgba8) <= usize::MAX,
            r matches Some(b) ==> b.spec_width() == width && b.spec_height() == height
                && b.spec_layout() == PixelLayout::Rgba8 && b.raw() == Seq::new(
                byte_count(width, height, PixelLayout::Rgba8),
                |i: int| 0u8,
            ),
    {
        match checked_byte_count(width, height, PixelLayout::Rgba8) {
            Some(needed) => {
                let pixels: Vec<u8> = vec![0u8; needed];
                assert(pixels@ =~= Seq::new(needed as nat, |i: int| 0u8));
                Some(PixelBuffer { width, height, layout: PixelLayout::Rgba8, pixels })
            },
            None => None,
        }
    }

    pub fn width(&self) -> (r: u32)
        ensures
            r == self.spec_width(),
    {
        self.width
    }

    pub fn height(&self) -> (r: u32)
        ensures
            r == self.spec_height(),
    {
        self.height
    }

    pub fn layout(&self) -> (r: PixelLayout)
        ensures
            r == self.spec_layout(),
    {
        self.layout
    }

    /// The bytes, row by row; there are as many as the size asks for.
    pub fn as_raw(&self) -> (r: &Vec<u8>)
        ensures
            r@ == self.raw(),
            r@.len() == byte_count(self.spec_width(), self.spec_height(), self.spec_layout()),
    {
        proof {
            use_type_invariant(self);
        }
        &self.pixels
    }

    /// The same image in the RGBA layout.
    pub fn to_rgba8(&self) -> (r: Self)
        ensures
            r.spec_width() == self.spec_width(),
            r.spec_height() == self.spec_height(),
            r.spec_layout() == PixelLayout::Rgba8,
            r.raw() == self.rgba(),
    {
        proof {
            use_type_invariant(self);
        }
        match self.layout {
            PixelLayout::Rgba8 => PixelBuffer {
                width: self.width,
                height: self.height,
                layout: PixelLayout::Rgba8,
                pixels: self.pixels.clone(),
            },
            PixelLayout::Rgb8 => {
                let count: usize = self.pixels.len() / 3;
                let ghost rgb = self.pixels@;
                assert(rgb.len() == (self.width as nat) * (self.height as nat) * 3);
                assert(count == (self.width as nat) * (self.height as nat));
                let mut pixels: Vec<u8> = Vec::new();
                let mut p: usize = 0;
                while p < count
                    invariant
                        p <= count,
                        rgb == self.pixels@,
                        rgb.len() == count * 3,
                        rgb.len() <= usize::MAX,
                        pixels@.len() == p * 4,
                        forall|i: int| 0 <= i < p * 4 ==> pixels@[i] == with_alpha(rgb)[i],
                    decreases count - p,
                {
                    let base: usize = p * 3;
                    pixels.push(self.pixels[base]);
                    pixels.push(self.pixels[base + 1]);
                    pixels.push(self.pixels[base + 2]);
                    pixels.push(255u8);
                    p += 1;
                }
                assert(pixels@ =~= with_alpha(rgb));
                assert(pixels@.len() == (self.width as nat) * (self.height as nat) * 4);
                PixelBuffer {
                    width: self.width,
                    height: self.height,
                    layout: PixelLayout::Rgba8,
                    pixels,
                }
            },
        }
    }

    /// Whether [`resized`](PixelBuffer::resized) can produce an image of the
    /// given size from this one: see [`resize_fits`].
    pub open spec fn can_resize_to(self, new_width: u32, new_height: u32) -> bool {
        resize_fits(self.spec_width(), new_width, new_height)
    }

    /// This image resized to the given size with the nearest-neighbour
    /// filter, in the RGBA layout; nothing where the resize would need an
    /// allocation larger than a machine can make.
    pub fn resized(&self, new_width: u32, new_height: u32) -> (r: Option<Self>)
        ensures
            r is Some <==> self.can_resize_to(new_width, new_height),
            r matches Some(b) ==> b.spec_width() == new_width && b.spec_height() == new_height
                && b.spec_layout() == PixelLayout::Rgba8 && b.raw() == nearest_resized(
                self.rgba(),
                self.spec_width(),
                self.spec_height(),
                new_width,
                new_height,
            ),
    {
        proof {
            assert((self.width as nat) * (new_height as nat) <= 0xffff_ffff * 0xffff_ffff)
                by (nonlinear_arith)
                requires
                    self.width <= 0xffff_ffff,
                    new_height <= 0xffff_ffff,
            ;
        }
        let tall: u64 = (self.width as u64) * (new_height as u64);
        proof {
            assert((new_width as nat) * (new_height as nat) <= 0xffff_ffff * 0xffff_ffff)
                by (nonlinear_arith)
                requires
                    new_width <= 0xffff_ffff,
                    new_height <= 0xffff_ffff,
            ;
        }
        let out: u64 = (new_width as u64) * (new_height as u64);
        if (tall as u128) * 16 > isize::MAX as u128 || (out as u128) * 4 > isize::MAX as u128 {
            return None;
        }
        let source = self.to_rgba8();
        proof {
            use_type_invariant(&source);
        }
        let pixels = resize_nearest(&source.pixels, self.width, self.height, new_width, new_height);
        Some(PixelBuffer { width: new_width, height: new_height, layout: PixelLayout::Rgba8, pixels })
    }
}

} // verus!
