//! The RGBA pixel buffer of the `image` crate, as the rest of the library sees it.
use vstd::prelude::*;

verus! {

/// An 8-bit RGBA image, row-major. Verus cannot declare `image::ImageBuffer`
/// itself (its pixel type carries an outside trait bound), so the buffer is
/// held here and described by `buffer_pixels`, `buffer_width` and `buffer_height`.
#[verifier::external_body]
pub struct PixelBuffer {
    inner: image::ImageBuffer<image::Rgba<u8>, Vec<u8>>,
}

/// What a buffer holds: the colour of each pixel, keyed by `(x, y)`.
pub uninterp spec fn buffer_pixels(b: PixelBuffer) -> Map<(u32, u32), [u8; 4]>;

/// The width a buffer was made with, in pixels.
pub uninterp spec fn buffer_width(b: PixelBuffer) -> u32;

/// The height a buffer was made with, in pixels.
pub uninterp spec fn buffer_height(b: PixelBuffer) -> u32;

/// Number of bytes that a `width x height` RGBA image occupies.
pub open spec fn raw_len(width: int, height: int) -> int {
    4 * width * height
}

/// Offset of the first byte of pixel `(x, y)` in a row-major RGBA image.
pub open spec fn raw_offset(width: int, x: int, y: int) -> int {
    4 * (y * width + x)
}

/// The pixel map that a raw row-major RGBA byte sequence holds.
pub open spec fn raw_holds(m: Map<(u32, u32), [u8; 4]>, width: u32, height: u32, raw: Seq<u8>) -> bool {
    &&& forall|k: (u32, u32)| #[trigger] m.contains_key(k) <==> (k.0 < width && k.1 < height)
    &&& forall|k: (u32, u32)|
        #![trigger m[k]]
        k.0 < width && k.1 < height ==> m[k]@ == raw.subrange(
            raw_offset(width as int, k.0 as int, k.1 as int),
            raw_offset(width as int, k.0 as int, k.1 as int) + 4,
        )
}

impl PixelBuffer {
    /// A `width x height` buffer with every byte set to `shade`, or `None`
    /// when its bytes would not fit in memory's address range.
    pub fn blank(width: u32, height: u32, shade: u8) -> (r: Option<PixelBuffer>)
        ensures
            r is Some <==> raw_len(width as int, height as int) <= usize::MAX,
            r matches Some(b) ==> {
                &&& buffer_width(b) == width
                &&& buffer_height(b) == height
                &&& forall|k: (u32, u32)| #[trigger]
                    buffer_pixels(b).contains_key(k) <==> (k.0 < width && k.1 < height)
                &&& forall|k: (u32, u32)|
                    k.0 < width && k.1 < height ==> #[trigger] buffer_pixels(b)[k] == [shade, shade, shade, shade]
            },
    {
        proof {
            assert(4 * (width as int) * (height as int) <= 4 * (u32::MAX as int) * (u32::MAX as int)) by (nonlinear_arith)
                requires
                    width <= u32::MAX,
                    height <= u32::MAX,
            ;
        }
        let len = 4 * width as u128 * height as u128;
        if len > usize::MAX as u128 {
            return None;
        }
        let raw = vec![shade; len as usize];
        let r = PixelBuffer::from_raw(width, height, raw);
        proof {
            if r is Some {
                let b = r->Some_0;
                assert forall|k: (u32, u32)|
                    k.0 < width && k.1 < height implies #[trigger] buffer_pixels(b)[k] == [shade, shade, shade, shade] by {
                    let off = raw_offset(width as int, k.0 as int, k.1 as int);
                    assert(0 <= off && off + 4 <= len) by (nonlinear_arith)
                        requires
                            off == 4 * (k.1 * width + k.0),
                            k.0 < width,
                            k.1 < height,
                            len == 4 * width * height,
                    ;
                    let px = buffer_pixels(b)[k];
                    assert(px@ == raw@.subrange(off, off + 4));
                    assert(px@[0] == shade && px@[1] == shade && px@[2] == shade && px@[3] == shade);
                    assert(px =~= [shade, shade, shade, shade]);
                }
            }
        }
        r
    }

    /// Relies on `ImageBuffer::from_raw`: it takes row-major RGBA bytes and
    /// returns `None` exactly when they are fewer than `4 * width * height`.
    #[verifier::external_body]
    pub fn from_raw(width: u32, height: u32, raw: Vec<u8>) -> (r: Option<PixelBuffer>)
        ensures
            r is Some <==> raw_len(width as int, height as int) <= raw@.len(),
            r matches Some(b) ==> {
                &&& buffer_width(b) == width
                &&& buffer_height(b) == height
                &&& raw_holds(buffer_pixels(b), width, height, raw@)
            },
    {
        image::ImageBuffer::from_raw(width, height, raw).map(|inner| PixelBuffer { inner })
    }

    /// Relies on `ImageBuffer::into_raw`: it hands back the row-major RGBA bytes.
    #[verifier::external_body]
    pub fn into_raw(self) -> (r: Vec<u8>)
        ensures
            raw_len(buffer_width(self) as int, buffer_height(self) as int) <= r@.len(),
            raw_holds(buffer_pixels(self), buffer_width(self), buffer_height(self), r@),
    {
        self.inner.into_raw()
    }

    /// Relies on `ImageBuffer::width`, which returns the width the buffer was made with.
    #[verifier::external_body]
    pub(crate) fn width(&self) -> (r: u32)
        ensures
            r == buffer_width(*self),
    {
        self.inner.width()
    }

    /// Relies on `ImageBuffer::height`, which returns the height the buffer was made with.
    #[verifier::external_body]
    pub(crate) fn height(&self) -> (r: u32)
        ensures
            r == buffer_height(*self),
    {
        self.inner.height()
    }

    /// Relies on `ImageBuffer::put_pixel`: it overwrites the one pixel at `(x, y)`,
    /// leaves the dimensions alone, and panics outside `width x height`.
    #[verifier::external_body]
    pub(crate) fn put_pixel(&mut self, x: u32, y: u32, color: [u8; 4])
        requires
            x < buffer_width(*old(self)),
            y < buffer_height(*old(self)),
        ensures
            buffer_width(*final(self)) == buffer_width(*old(self)),
            buffer_height(*final(self)) == buffer_height(*old(self)),
            buffer_pixels(*final(self)) == buffer_pixels(*old(self)).insert((x, y), color),
    {
        self.inner.put_pixel(x, y, image::Rgba(color))
    }
}

} // verus!
