//! Mapping universe coordinates (kilometres, origin at the centre) onto a
//! pixel buffer (origin at the upper left), and drawing bodies as filled disks.
use vstd::prelude::*;

use crate::pixels::{buffer_height, buffer_pixels, buffer_width, PixelBuffer};

verus! {

/// The smallest radius, in pixels, that a disk is drawn with, so that small or
/// distant bodies stay visible.
pub const MIN_PIXEL_SIZE: u32 = 1;

/// A point of the universe, in whole kilometres from the star.
#[derive(Clone, Copy, Debug, PartialEq, Eq, Structural)]
pub struct UniversePoint {
    pub x: i64,
    pub y: i64,
}

/// A pixel position, counted from the upper-left corner of the buffer. It
/// may lie outside the buffer, also to its left or above it.
#[derive(Clone, Copy, Debug, PartialEq, Eq, Structural)]
pub struct PixelPoint {
    pub x: i128,
    pub y: i128,
}

/// `num / den` truncated toward zero and saturated into `u32`, as a float
/// conversion `as u32` does: negative quotients give 0.
pub open spec fn sat_quotient(num: int, den: int) -> u32 {
    if num <= 0 {
        0
    } else if num / den > u32::MAX {
        u32::MAX
    } else {
        (num / den) as u32
    }
}

/// Pixel column of universe x-coordinate `x`: with a universe width of
/// `2 * half` kilometres, the column is
/// `(0.5 + x / (2 * universe_width)) * width_px`, rounded down, so the buffer
/// spans `-2 * half .. 2 * half` across. Columns outside the buffer are kept
/// as they are; clipping happens pixel by pixel when drawing.
pub open spec fn map_x(half: int, width_px: int, x: int) -> int {
    (2 * half + x) * width_px / (4 * half)
}

/// Pixel row of universe y-coordinate `y`. The visible universe height keeps
/// the buffer's aspect ratio, `2 * half * height_px / width_px`, and the row is
/// `(0.5 + y / (2 * universe_height)) * height_px`, rounded down and not
/// clipped; a buffer without rows maps everything to row 0.
pub open spec fn map_y(half: int, width_px: int, height_px: int, y: int) -> int {
    if height_px == 0 {
        0
    } else {
        (2 * half * height_px + y * width_px) / (4 * half)
    }
}

/// Number of pixels that `len` kilometres span: `len * width_px / (2 * half)`, truncated.
pub open spec fn map_len(half: int, width_px: int, len: int) -> u32 {
    sat_quotient(len * width_px, 2 * half)
}

/// The radius a disk is drawn with: the mapped radius, but at least `MIN_PIXEL_SIZE`.
pub open spec fn drawn_radius(mapped: u32) -> u32 {
    if mapped < MIN_PIXEL_SIZE {
        MIN_PIXEL_SIZE
    } else {
        mapped
    }
}

/// Whether pixel `(a, b)` lies strictly inside the disk of radius `r` around `(cx, cy)`.
pub open spec fn in_disk(cx: int, cy: int, r: int, a: int, b: int) -> bool {
    (a - cx) * (a - cx) + (b - cy) * (b - cy) < r * r
}

/// The pixels of a `width x height` buffer that a disk covers.
pub open spec fn covered(width: u32, height: u32, c: PixelPoint, r: u32, k: (u32, u32)) -> bool {
    k.0 < width && k.1 < height && in_disk(c.x as int, c.y as int, r as int, k.0 as int, k.1 as int)
}

/// Pixel map `m` after painting every covered pixel with `color`.
pub open spec fn paint_disk(
    m: Map<(u32, u32), [u8; 4]>,
    width: u32,
    height: u32,
    c: PixelPoint,
    r: u32,
    color: [u8; 4],
) -> Map<(u32, u32), [u8; 4]> {
    Map::new(
        |k: (u32, u32)| m.contains_key(k) || covered(width, height, c, r, k),
        |k: (u32, u32)| if covered(width, height, c, r, k) { color } else { m[k] },
    )
}

/// Whether pixel `k` comes before `(x, y)` in column-major scan order.
pub open spec fn scanned_before(k: (u32, u32), x: int, y: int) -> bool {
    k.0 < x || (k.0 == x && k.1 < y)
}

/// Pixel map `m` after the part of a disk that comes before `(x, y)` is painted.
pub open spec fn paint_disk_upto(
    m: Map<(u32, u32), [u8; 4]>,
    width: u32,
    height: u32,
    c: PixelPoint,
    r: u32,
    color: [u8; 4],
    x: int,
    y: int,
) -> Map<(u32, u32), [u8; 4]> {
    Map::new(
        |k: (u32, u32)| m.contains_key(k) || (covered(width, height, c, r, k) && scanned_before(k, x, y)),
        |k: (u32, u32)|
            if covered(width, height, c, r, k) && scanned_before(k, x, y) {
                color
            } else {
                m[k]
            },
    )
}

/// A pixel buffer bound to a view of the universe for one render pass.
pub struct ScaledBuffer {
    inner: PixelBuffer,
    /// Half the visible universe width, in kilometres.
    width: u64,
}

impl ScaledBuffer {
    /// The buffer drawn into.
    pub closed spec fn buffer(&self) -> PixelBuffer {
        self.inner
    }

    /// Half the visible universe width, in kilometres.
    pub closed spec fn half_width(&self) -> u64 {
        self.width
    }

    pub open spec fn wf(&self) -> bool {
        self.half_width() > 0
    }

    pub open spec fn width_px(&self) -> u32 {
        buffer_width(self.buffer())
    }

    pub open spec fn height_px(&self) -> u32 {
        buffer_height(self.buffer())
    }

    /// The pixel that universe point `pos` falls on.
    pub open spec fn spec_map_point(&self, pos: UniversePoint) -> PixelPoint {
        PixelPoint {
            x: map_x(self.half_width() as int, self.width_px() as int, pos.x as int) as i128,
            y: map_y(self.half_width() as int, self.width_px() as int, self.height_px() as int, pos.y as int)
                as i128,
        }
    }

    /// The number of pixels that `len` kilometres span.
    pub open spec fn spec_map_length(&self, len: u64) -> u32 {
        map_len(self.half_width() as int, self.width_px() as int, len as int)
    }

    /// Mapped pixels stay far inside the range of `i128`.
    pub proof fn lemma_map_point_bounds(&self, pos: UniversePoint)
        requires
            self.wf(),
        ensures
            -0x100_0000_0000_0000_0000_0000_0000 < map_x(self.half_width() as int, self.width_px() as int, pos.x as int)
                < 0x100_0000_0000_0000_0000_0000_0000,
            -0x100_0000_0000_0000_0000_0000_0000 < map_y(
                self.half_width() as int,
                self.width_px() as int,
                self.height_px() as int,
                pos.y as int,
            ) < 0x100_0000_0000_0000_0000_0000_0000,
    {
        let half = self.half_width() as int;
        let w = self.width_px() as int;
        let h = self.height_px() as int;
        lemma_mul_bounded(2 * half + pos.x, w, 0x10_0000_0000_0000_0000, 0x1_0000_0000);
        lemma_mul_bounded(2 * half, h, 0x10_0000_0000_0000_0000, 0x1_0000_0000);
        lemma_mul_bounded(pos.y as int, w, 0x10_0000_0000_0000_0000, 0x1_0000_0000);
        lemma_quotient_magnitude((2 * half + pos.x) * w, 4 * half, 0x10_0000_0000_0000_0000_0000_0000 as int);
        lemma_quotient_magnitude(2 * half * h + pos.y * w, 4 * half, 0x20_0000_0000_0000_0000_0000_0000 as int);
    }

    /// Binds `buf` to a view `2 * width` kilometres wide, centred on the origin.
    pub fn new(buf: PixelBuffer, width: u64) -> (r: ScaledBuffer)
        requires
            width > 0,
        ensures
            r.wf(),
            r.buffer() == buf,
            r.half_width() == width,
    {
        ScaledBuffer { inner: buf, width }
    }

    /// Hands the buffer back.
    pub fn into_buffer(self) -> (r: PixelBuffer)
        ensures
            r == self.buffer(),
    {
        self.inner
    }

    /// The pixel that universe point `pos` falls on; points outside the view
    /// map to pixels outside the buffer.
    pub fn map_point(&self, pos: UniversePoint) -> (r: PixelPoint)
        requires
            self.wf(),
        ensures
            r == self.spec_map_point(pos),
    {
        let width = self.inner.width() as i128;
        let height = self.inner.height() as i128;
        let half = self.width as i128;
        proof {
            lemma_mul_bounded(2 * half + pos.x as i128, width as int, 0x10_0000_0000_0000_0000, 0x1_0000_0000);
            lemma_mul_bounded(2 * half, height as int, 0x10_0000_0000_0000_0000, 0x1_0000_0000);
            lemma_mul_bounded(pos.y as int, width as int, 0x10_0000_0000_0000_0000, 0x1_0000_0000);
        }
        let x = floor_quotient((2 * half + pos.x as i128) * width, 4 * half);
        let y = if height == 0 {
            0
        } else {
            floor_quotient(2 * half * height + pos.y as i128 * width, 4 * half)
        };
        PixelPoint { x, y }
    }

    /// The number of pixels that `len` kilometres span.
    pub fn map_length(&self, len: u64) -> (r: u32)
        requires
            self.wf(),
        ensures
            r == self.spec_map_length(len),
    {
        let width = self.inner.width() as i128;
        proof {
            lemma_mul_bounded(len as int, width as int, 0x10_0000_0000_0000_0000, 0x1_0000_0000);
        }
        saturating_quotient(len as i128 * width, 2 * self.width as i128)
    }

    /// Paints a filled disk of `color` around universe point `center`. Its
    /// radius is `radius` kilometres mapped to pixels, raised to at least
    /// `MIN_PIXEL_SIZE`; a pixel is painted when its squared offset from the
    /// mapped centre is below the squared radius. Pixels outside the buffer
    /// are skipped.
    pub fn draw_circle(&mut self, center: UniversePoint, radius: u64, color: [u8; 4])
        requires
            old(self).wf(),
        ensures
            final(self).wf(),
            final(self).half_width() == old(self).half_width(),
            final(self).width_px() == old(self).width_px(),
            final(self).height_px() == old(self).height_px(),
            buffer_pixels(final(self).buffer()) == paint_disk(
                buffer_pixels(old(self).buffer()),
                old(self).width_px(),
                old(self).height_px(),
                old(self).spec_map_point(center),
                drawn_radius(old(self).spec_map_length(radius)),
                color,
            ),
    {
        let c = self.map_point(center);
        let mapped = self.map_length(radius);
        let r: u32 = if mapped < MIN_PIXEL_SIZE {
            MIN_PIXEL_SIZE
        } else {
            mapped
        };
        let w = self.inner.width();
        let h = self.inner.height();
        proof {
            self.lemma_map_point_bounds(center);
        }
        let cx = c.x;
        let cy = c.y;
        let rr = r as i128;
        // Only the part of the bounding square that lies in the buffer.
        let x_lo: i128 = if cx - rr + 1 > 0 {
            cx - rr + 1
        } else {
            0
        };
        let x_hi: i128 = if cx + rr < w as i128 {
            cx + rr
        } else {
            w as i128
        };
        let y_lo: i128 = if cy - rr + 1 > 0 {
            cy - rr + 1
        } else {
            0
        };
        let y_hi: i128 = if cy + rr < h as i128 {
            cy + rr
        } else {
            h as i128
        };
        let ghost m0 = buffer_pixels(self.inner);
        proof {
            assert forall|k: (u32, u32)| covered(w, h, c, r, k) implies x_lo <= k.0 < x_hi && y_lo
                <= k.1 < y_hi by {
                lemma_disk_offsets(cx as int, cy as int, rr as int, k.0 as int, k.1 as int);
            }
            assert(m0 =~= paint_disk_upto(m0, w, h, c, r, color, x_lo as int, 0));
        }
        let mut x: i128 = x_lo;
        while x < x_hi
            invariant
                x_lo <= x,
                x_hi <= w,
                0 <= x_lo,
                0 <= y_lo,
                cx - rr < x_lo,
                x_hi <= cx + rr,
                cy - rr < y_lo,
                y_hi <= cy + rr,
                -0x100_0000_0000_0000_0000_0000_0000 < cx < 0x100_0000_0000_0000_0000_0000_0000,
                -0x100_0000_0000_0000_0000_0000_0000 < cy < 0x100_0000_0000_0000_0000_0000_0000,
                cx == c.x,
                cy == c.y,
                rr == r,
                y_hi <= h,
                self.wf(),
                self.half_width() == old(self).half_width(),
                buffer_width(self.inner) == w,
                buffer_height(self.inner) == h,
                forall|k: (u32, u32)| #[trigger]
                    covered(w, h, c, r, k) ==> x_lo <= k.0 < x_hi && y_lo <= k.1 < y_hi,
                buffer_pixels(self.inner) == paint_disk_upto(m0, w, h, c, r, color, x as int, 0),
            decreases x_hi - x,
        {
            let mut y: i128 = y_lo;
            proof {
                assert(paint_disk_upto(m0, w, h, c, r, color, x as int, 0) =~= paint_disk_upto(
                    m0, w, h, c, r, color, x as int, y as int));
            }
            while y < y_hi
                invariant
                    y_lo <= y,
                    x_lo <= x < x_hi <= w,
                    0 <= x_lo,
                    0 <= y_lo,
                    cx - rr < x_lo,
                    x_hi <= cx + rr,
                    cy - rr < y_lo,
                    y_hi <= cy + rr,
                    -0x100_0000_0000_0000_0000_0000_0000 < cx < 0x100_0000_0000_0000_0000_0000_0000,
                    -0x100_0000_0000_0000_0000_0000_0000 < cy < 0x100_0000_0000_0000_0000_0000_0000,
                    cx == c.x,
                    cy == c.y,
                    rr == r,
                    y_hi <= h,
                    self.wf(),
                    self.half_width() == old(self).half_width(),
                    buffer_width(self.inner) == w,
                    buffer_height(self.inner) == h,
                    forall|k: (u32, u32)| #[trigger]
                        covered(w, h, c, r, k) ==> x_lo <= k.0 < x_hi && y_lo <= k.1 < y_hi,
                    buffer_pixels(self.inner) == paint_disk_upto(m0, w, h, c, r, color, x as int, y as int),
                decreases y_hi - y,
            {
                let dx: i128 = x - cx;
                let dy: i128 = y - cy;
                let ghost k = (x as u32, y as u32);
                proof {
                    lemma_mul_bounded(rr as int, rr as int, 0x1_0000_0000, 0x1_0000_0000);
                    assert(0 <= dx * dx <= rr * rr && 0 <= dy * dy <= rr * rr) by (nonlinear_arith)
                        requires
                            -rr < dx < rr,
                            -rr < dy < rr,
                    ;
                    assert(rr * rr <= 0x1_0000_0000_0000_0000);
                }
                if dx * dx + dy * dy < rr * rr {
                    self.inner.put_pixel(x as u32, y as u32, color);
                    proof {
                        assert(covered(w, h, c, r, k));
                        assert(buffer_pixels(self.inner) =~= paint_disk_upto(
                            m0, w, h, c, r, color, x as int, y + 1));
                    }
                } else {
                    proof {
                        assert(!covered(w, h, c, r, k));
                        assert(buffer_pixels(self.inner) =~= paint_disk_upto(
                            m0, w, h, c, r, color, x as int, y + 1));
                    }
                }
                y = y + 1;
            }
            proof {
                assert(paint_disk_upto(m0, w, h, c, r, color, x as int, y as int) =~= paint_disk_upto(
                    m0, w, h, c, r, color, x + 1, 0));
            }
            x = x + 1;
        }
        proof {
            assert(paint_disk_upto(m0, w, h, c, r, color, x as int, 0) =~= paint_disk(m0, w, h, c, r, color));
        }
    }
}

proof fn lemma_mul_bounded(a: int, b: int, bound_a: int, bound_b: int)
    requires
        -bound_a <= a <= bound_a,
        0 <= b <= bound_b,
    ensures
        -bound_a * bound_b <= a * b <= bound_a * bound_b,
{
    assert(-bound_a * bound_b <= a * b <= bound_a * bound_b) by (nonlinear_arith)
        requires
            -bound_a <= a <= bound_a,
            0 <= b <= bound_b,
    ;
}

/// A point strictly inside a disk is less than the radius away along each axis.
proof fn lemma_disk_offsets(cx: int, cy: int, r: int, a: int, b: int)
    requires
        in_disk(cx, cy, r, a, b),
        r >= 0,
    ensures
        cx - r < a < cx + r,
        cy - r < b < cy + r,
{
    assert(cx - r < a < cx + r && cy - r < b < cy + r) by (nonlinear_arith)
        requires
            (a - cx) * (a - cx) + (b - cy) * (b - cy) < r * r,
            r >= 0,
    ;
}

/// `num / den` rounded down.
fn floor_quotient(num: i128, den: i128) -> (r: i128)
    requires
        0 < den < 0x1_0000_0000_0000_0000_0000_0000_0000,
        -0x1_0000_0000_0000_0000_0000_0000_0000 < num < 0x100_0000_0000_0000_0000_0000_0000_0000,
    ensures
        r == num / den,
{
    if num >= 0 {
        num / den
    } else {
        let q = (den - 1 - num) / den;
        proof {
            let n = num as int;
            let d = den as int;
            let f = n / d;
            vstd::arithmetic::div_mod::lemma_fundamental_div_mod(n, d);
            let m = n % d;
            assert(d - 1 - n == (-f) * d + (d - 1 - m)) by (nonlinear_arith)
                requires
                    n == d * f + m,
            ;
            vstd::arithmetic::div_mod::lemma_fundamental_div_mod_converse(d - 1 - n, d, -f, d - 1 - m);
        }
        -q
    }
}

/// A quotient by a positive divisor is no larger in magnitude than the dividend.
proof fn lemma_quotient_magnitude(num: int, den: int, bound: int)
    requires
        den >= 1,
        -bound <= num <= bound,
    ensures
        -bound <= num / den <= bound,
{
    vstd::arithmetic::div_mod::lemma_fundamental_div_mod(num, den);
    let q = num / den;
    let m = num % den;
    assert(-bound <= q <= bound) by (nonlinear_arith)
        requires
            num == den * q + m,
            0 <= m < den,
            den >= 1,
            -bound <= num <= bound,
    ;
}

/// `num / den` truncated toward zero and saturated into `u32`.
fn saturating_quotient(num: i128, den: i128) -> (r: u32)
    requires
        den > 0,
    ensures
        r == sat_quotient(num as int, den as int),
{
    if num <= 0 {
        0
    } else {
        let q = num / den;
        if q > u32::MAX as i128 {
            u32::MAX
        } else {
            q as u32
        }
    }
}

} // verus!

verus! {

/// Mapping back from pixels loses less than one pixel. For a view of half
/// width `half` kilometres on a `width_px x height_px` buffer, one pixel spans
/// `4 * half / width_px` kilometres across and the inverse transform of column
/// `px` is `px * 4 * half / width_px - 2 * half`; likewise for rows and for
/// lengths (`2 * half / width_px` kilometres per pixel). Each statement is
/// multiplied out by `width_px`; lengths are stated where they map without
/// saturating.
pub proof fn lemma_map_round_trip(half: u64, width_px: u32, height_px: u32, p: UniversePoint, len: u64)
    requires
        half > 0,
    ensures
        ({
            let px = map_x(half as int, width_px as int, p.x as int);
            0 <= (p.x + 2 * half) * width_px - 4 * half * px < 4 * half
        }),
        height_px > 0 ==> {
            let py = map_y(half as int, width_px as int, height_px as int, p.y as int);
            0 <= p.y * width_px + 2 * half * height_px - 4 * half * py < 4 * half
        },
        len * width_px / (2 * half) <= u32::MAX ==> {
            let lp = map_len(half as int, width_px as int, len as int) as int;
            0 <= len * width_px - 2 * half * lp < 2 * half
        },
{
    vstd::arithmetic::div_mod::lemma_fundamental_div_mod((2 * half + p.x) * width_px, 4 * half);
    vstd::arithmetic::div_mod::lemma_fundamental_div_mod(2 * half * height_px + p.y * width_px, 4 * half);
    lemma_quotient_bounds(len * width_px, 2 * half);
}

proof fn lemma_quotient_bounds(num: int, den: int)
    requires
        den > 0,
    ensures
        0 <= num && num / den <= u32::MAX ==> 0 <= num - den * sat_quotient(num, den) < den,
{
    if 0 <= num && num / den <= u32::MAX {
        vstd::arithmetic::div_mod::lemma_fundamental_div_mod(num, den);
        if num == 0 {
            assert(sat_quotient(num, den) == 0);
        }
    }
}

/// A disk always covers the pixel of its centre, so drawing a body whose
/// mapped radius falls below `MIN_PIXEL_SIZE` still paints it when the centre
/// lies in the buffer; and no pixel whose squared offset from the centre is at
/// least the squared drawn radius is touched.
pub proof fn lemma_disk_coverage(
    m: Map<(u32, u32), [u8; 4]>,
    width: u32,
    height: u32,
    c: PixelPoint,
    mapped: u32,
    color: [u8; 4],
    k: (u32, u32),
)
    ensures
        ({
            let painted = paint_disk(m, width, height, c, drawn_radius(mapped), color);
            0 <= c.x < width && 0 <= c.y < height ==> painted.contains_key((c.x as u32, c.y as u32))
                && painted[(c.x as u32, c.y as u32)] == color
        }),
        ({
            let painted = paint_disk(m, width, height, c, drawn_radius(mapped), color);
            let r = drawn_radius(mapped) as int;
            (k.0 - c.x) * (k.0 - c.x) + (k.1 - c.y) * (k.1 - c.y) >= r * r ==> (painted.contains_key(k)
                == m.contains_key(k) && (m.contains_key(k) ==> painted[k] == m[k]))
        }),
{
    let r = drawn_radius(mapped) as int;
    assert(r >= 1);
    assert(0 < r * r) by (nonlinear_arith)
        requires
            r >= 1,
    ;
    assert(in_disk(c.x as int, c.y as int, r, c.x as int, c.y as int));
}

} // verus!
