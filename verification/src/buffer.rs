use vstd::prelude::*;

use crate::pixel::{Color, DrawError, BUF_LEN, BYTES_PER_PIXEL, SIDE};

verus! {

/// Byte offset of channel 0 of pixel (x, y): the image is row-major with four
/// bytes per pixel.
pub open spec fn pixel_index(x: int, y: int) -> int {
    (y * (SIDE as int) + x) * (BYTES_PER_PIXEL as int)
}

/// Whether (x, y) lies inside the image.
pub open spec fn valid_pixel(x: int, y: int) -> bool {
    0 <= x < SIDE as int && 0 <= y < SIDE as int
}

/// The byte a drawn pixel of color `c` holds in channel `ch`: red, green,
/// blue, then full alpha.
pub open spec fn channel_byte(c: Color, ch: int) -> u8 {
    if ch == 0 {
        c.r
    } else if ch == 1 {
        c.g
    } else if ch == 2 {
        c.b
    } else {
        255u8
    }
}

/// The four channel bytes of pixel (x, y) in buffer contents `s`.
pub open spec fn pixel_at(s: Seq<u8>, x: int, y: int) -> (u8, u8, u8, u8) {
    (
        s[pixel_index(x, y)],
        s[pixel_index(x, y) + 1],
        s[pixel_index(x, y) + 2],
        s[pixel_index(x, y) + 3],
    )
}

/// The four bytes a freshly drawn pixel of color `c` holds.
pub open spec fn rgba(c: Color) -> (u8, u8, u8, u8) {
    (c.r, c.g, c.b, 255u8)
}

/// The x coordinate of the pixel that byte `i` belongs to.
pub open spec fn byte_pixel_x(i: int) -> int {
    (i / (BYTES_PER_PIXEL as int)) % (SIDE as int)
}

/// The y coordinate of the pixel that byte `i` belongs to.
pub open spec fn byte_pixel_y(i: int) -> int {
    (i / (BYTES_PER_PIXEL as int)) / (SIDE as int)
}

/// Buffer contents after painting color `c` over every pixel of `cov`:
/// covered pixels hold the color's channel bytes with full alpha, every other
/// byte keeps its value from `s`.
pub open spec fn painted(s: Seq<u8>, cov: Set<(int, int)>, c: Color) -> Seq<u8> {
    Seq::new(
        s.len(),
        |i: int|
            if cov.contains((byte_pixel_x(i), byte_pixel_y(i))) {
                channel_byte(c, i % (BYTES_PER_PIXEL as int))
            } else {
                s[i]
            },
    )
}

/// Byte `pixel_index(x, y) + ch` belongs to pixel (x, y), and is its channel
/// `ch`.
pub proof fn lemma_byte_of_pixel(x: int, y: int, ch: int)
    requires
        valid_pixel(x, y),
        0 <= ch < BYTES_PER_PIXEL as int,
    ensures
        byte_pixel_x(pixel_index(x, y) + ch) == x,
        byte_pixel_y(pixel_index(x, y) + ch) == y,
        (pixel_index(x, y) + ch) % (BYTES_PER_PIXEL as int) == ch,
        0 <= pixel_index(x, y) + ch < BUF_LEN as int,
{
    let q = y * (SIDE as int) + x;
    let i = pixel_index(x, y) + ch;
    assert(i == q * 4 + ch);
    vstd::arithmetic::div_mod::lemma_fundamental_div_mod_converse_div(i, 4, q, ch);
    vstd::arithmetic::div_mod::lemma_fundamental_div_mod_converse_mod(i, 4, q, ch);
    vstd::arithmetic::div_mod::lemma_fundamental_div_mod_converse_div(q, SIDE as int, y, x);
    vstd::arithmetic::div_mod::lemma_fundamental_div_mod_converse_mod(q, SIDE as int, y, x);
}

/// Distinct pixels occupy disjoint four-byte ranges.
pub proof fn lemma_pixel_index_injective(x1: int, y1: int, x2: int, y2: int)
    requires
        valid_pixel(x1, y1),
        valid_pixel(x2, y2),
        x1 != x2 || y1 != y2,
    ensures
        pixel_index(x1, y1) + BYTES_PER_PIXEL as int <= pixel_index(x2, y2) || pixel_index(
            x2,
            y2,
        ) + BYTES_PER_PIXEL as int <= pixel_index(x1, y1),
{
}

/// Two full-length buffers that agree on every pixel agree byte for byte.
pub proof fn lemma_pixelwise_eq(s1: Seq<u8>, s2: Seq<u8>)
    requires
        s1.len() == BUF_LEN,
        s2.len() == BUF_LEN,
        forall|x: int, y: int| valid_pixel(x, y) ==> pixel_at(s1, x, y) == pixel_at(s2, x, y),
    ensures
        s1 == s2,
{
    assert forall|i: int| 0 <= i < BUF_LEN as int implies s1[i] == s2[i] by {
        let q = i / 4;
        let ch = i % 4;
        vstd::arithmetic::div_mod::lemma_fundamental_div_mod(i, 4);
        let x = q % (SIDE as int);
        let y = q / (SIDE as int);
        vstd::arithmetic::div_mod::lemma_fundamental_div_mod(q, SIDE as int);
        assert(valid_pixel(x, y));
        assert(i == pixel_index(x, y) + ch);
        assert(pixel_at(s1, x, y) == pixel_at(s2, x, y));
        if ch == 0 {
            assert(s1[i] == pixel_at(s1, x, y).0 && s2[i] == pixel_at(s2, x, y).0);
        } else if ch == 1 {
            assert(s1[i] == pixel_at(s1, x, y).1 && s2[i] == pixel_at(s2, x, y).1);
        } else if ch == 2 {
            assert(s1[i] == pixel_at(s1, x, y).2 && s2[i] == pixel_at(s2, x, y).2);
        } else {
            assert(s1[i] == pixel_at(s1, x, y).3 && s2[i] == pixel_at(s2, x, y).3);
        }
    }
    assert(s1 =~= s2);
}

/// Painting gives a covered pixel the color's bytes with full alpha and
/// leaves every other pixel as it was.
pub proof fn lemma_painted_pixel_at(s: Seq<u8>, cov: Set<(int, int)>, c: Color, x: int, y: int)
    requires
        s.len() == BUF_LEN,
        valid_pixel(x, y),
    ensures
        pixel_at(painted(s, cov, c), x, y) == if cov.contains((x, y)) {
            rgba(c)
        } else {
            pixel_at(s, x, y)
        },
{
    lemma_byte_of_pixel(x, y, 0);
    lemma_byte_of_pixel(x, y, 1);
    lemma_byte_of_pixel(x, y, 2);
    lemma_byte_of_pixel(x, y, 3);
}

/// A square RGBA image of SIDE × SIDE pixels, four bytes per pixel, row
/// major. Bytes of pixels never drawn stay zero: transparent black.
pub struct PixelBuffer {
    data: Vec<u8>,
}

impl View for PixelBuffer {
    type V = Seq<u8>;

    closed spec fn view(&self) -> Seq<u8> {
        self.data@
    }
}

impl PixelBuffer {
    /// The backing storage always holds exactly one RGBA quadruple per pixel.
    pub open spec fn wf(&self) -> bool {
        self@.len() == BUF_LEN as int
    }

    /// A fresh buffer: every byte zero, so every pixel is transparent black.
    pub fn new() -> (buf: PixelBuffer)
        ensures
            buf.wf(),
            forall|i: int| 0 <= i < BUF_LEN as int ==> buf@[i] == 0u8,
    {
        let mut data: Vec<u8> = Vec::new();
        while data.len() < BUF_LEN
            invariant
                data@.len() <= BUF_LEN as int,
                forall|i: int| 0 <= i < data@.len() ==> data@[i] == 0u8,
            decreases BUF_LEN as int - data@.len(),
        {
            data.push(0u8);
        }
        PixelBuffer { data }
    }
}

/// Unchecked pixel write, for callers that have proved the coordinates are
/// inside the image: the addressed pixel becomes the color with full alpha
/// and every other pixel keeps its bytes.
pub(crate) fn put_pixel(buf: &mut PixelBuffer, x: usize, y: usize, c: Color)
    requires
        old(buf).wf(),
        x < SIDE,
        y < SIDE,
    ensures
        final(buf).wf(),
        pixel_at(final(buf)@, x as int, y as int) == rgba(c),
        forall|px: int, py: int|
            valid_pixel(px, py) && !(px == x as int && py == y as int) ==> pixel_at(
                final(buf)@,
                px,
                py,
            ) == pixel_at(old(buf)@, px, py),
{
    let idx: usize = (y * SIDE + x) * BYTES_PER_PIXEL;
    buf.data[idx] = c.r;
    buf.data[idx + 1] = c.g;
    buf.data[idx + 2] = c.b;
    buf.data[idx + 3] = 255;
    proof {
        assert forall|px: int, py: int|
            valid_pixel(px, py) && !(px == x as int && py == y as int) implies pixel_at(
            buf@,
            px,
            py,
        ) == pixel_at(old(buf)@, px, py) by {
            lemma_pixel_index_injective(px, py, x as int, y as int);
        }
    }
}

/// Bounds-checked pixel write: inside the image the pixel becomes the color
/// with full alpha; outside, the call reports OutOfBounds and writes nothing.
pub fn write_pixel(buf: &mut PixelBuffer, x: usize, y: usize, color: Color) -> (res: Result<
    (),
    DrawError,
>)
    requires
        old(buf).wf(),
    ensures
        final(buf).wf(),
        x < SIDE && y < SIDE ==> res == Ok::<(), DrawError>(()) && pixel_at(
            final(buf)@,
            x as int,
            y as int,
        ) == rgba(color) && (forall|px: int, py: int|
            valid_pixel(px, py) && !(px == x as int && py == y as int) ==> pixel_at(
                final(buf)@,
                px,
                py,
            ) == pixel_at(old(buf)@, px, py)),
        !(x < SIDE && y < SIDE) ==> res == Err::<(), DrawError>(DrawError::OutOfBounds)
            && final(buf)@ == old(buf)@,
{
    if x < SIDE && y < SIDE {
        put_pixel(buf, x, y, color);
        Ok(())
    } else {
        Err(DrawError::OutOfBounds)
    }
}

/// A read-only view of the raw backing bytes, for a host to copy or blit.
/// The slice covers the whole buffer in its stable layout.
pub fn raw_view(buf: &PixelBuffer) -> (bytes: &[u8])
    ensures
        bytes@ == buf@,
{
    buf.data.as_slice()
}

} // verus!
