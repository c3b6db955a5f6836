//! Turning the rows read back from the storage texture into an RGBA image.

use vstd::prelude::*;

use crate::dispatch::{compute_pass_fits, spec_padded_bytes_per_row};

verus! {

/// An 8-bit RGBA image of the `image` crate. The `image` crate's buffer type
/// carries a trait bound that cannot be declared to the verifier, so the
/// buffer is held here and reached only through the functions below.
#[verifier::external_body]
pub struct RgbaImage {
    inner: image::RgbaImage,
}

/// The pixels of an RGBA image, by `(x, y)`.
pub uninterp spec fn rgba_pixels(img: RgbaImage) -> Map<(u32, u32), (u8, u8, u8, u8)>;

/// The `(width, height)` an RGBA image was made with.
pub uninterp spec fn rgba_dimensions(img: RgbaImage) -> (u32, u32);

/// Every pixel of a `width` x `height` image, all channels zero.
pub open spec fn blank_pixels(width: u32, height: u32) -> Map<(u32, u32), (u8, u8, u8, u8)> {
    Map::new(|p: (u32, u32)| p.0 < width && p.1 < height, |p: (u32, u32)| (0u8, 0u8, 0u8, 0u8))
}

/// Channel `c` (0 to 3: red, green, blue, alpha) of a pixel.
pub open spec fn channel(px: (u8, u8, u8, u8), c: int) -> u8 {
    if c == 0 {
        px.0
    } else if c == 1 {
        px.1
    } else if c == 2 {
        px.2
    } else {
        px.3
    }
}

/// The row-major, channel-interleaved bytes of a `width` x `height` image
/// whose pixels are `pixels`.
pub open spec fn raw_bytes(pixels: Map<(u32, u32), (u8, u8, u8, u8)>, width: u32, height: u32) -> Seq<u8> {
    Seq::new(
        (4 * width * height) as nat,
        |i: int| channel(pixels[(((i / 4) % (width as int)) as u32, ((i / 4) / (width as int)) as u32)], i % 4),
    )
}

/// Calls `image::ImageBuffer::new`, which allocates a `width` x `height`
/// image of zeroed pixels and panics when `4 * width`, or that times
/// `height`, overflows `usize`.
/// That the allocation itself may fail, and then abort, is not stated.
#[verifier::external_body]
fn new_rgba_image(width: u32, height: u32) -> (img: RgbaImage)
    requires
        4 * width <= usize::MAX,
        4 * width * height <= usize::MAX,
    ensures
        rgba_dimensions(img) == (width, height),
        rgba_pixels(img) == blank_pixels(width, height),
{
    RgbaImage { inner: image::RgbaImage::new(width, height) }
}

/// Calls `image::ImageBuffer::put_pixel`, which overwrites the pixel at
/// `(x, y)` and panics when it lies outside the image.
#[verifier::external_body]
fn put_rgba_pixel(img: &mut RgbaImage, x: u32, y: u32, px: (u8, u8, u8, u8))
    requires
        x < rgba_dimensions(*old(img)).0,
        y < rgba_dimensions(*old(img)).1,
    ensures
        rgba_dimensions(*final(img)) == rgba_dimensions(*old(img)),
        rgba_pixels(*final(img)) == rgba_pixels(*old(img)).insert((x, y), px),
{
    img.inner.put_pixel(x, y, image::Rgba([px.0, px.1, px.2, px.3]))
}

/// Calls `image::ImageBuffer::into_raw`, which hands out the image's
/// buffer: the pixels row by row, each as its four channels in order.
#[verifier::external_body]
fn rgba_into_raw(img: RgbaImage) -> (bytes: Vec<u8>)
    ensures
        bytes@ == raw_bytes(rgba_pixels(img), rgba_dimensions(img).0, rgba_dimensions(img).1),
{
    img.inner.into_raw()
}

impl RgbaImage {
    /// The bytes of the image: its pixels row by row, each as red, green,
    /// blue and alpha.
    pub fn into_raw(self) -> (bytes: Vec<u8>)
        ensures
            bytes@ == raw_bytes(rgba_pixels(self), rgba_dimensions(self).0, rgba_dimensions(self).1),
            bytes@.len() == 4 * rgba_dimensions(self).0 * rgba_dimensions(self).1,
            forall|x: u32, y: u32|
                x < rgba_dimensions(self).0 && y < rgba_dimensions(self).1 ==> {
                    let i = 4 * (y * rgba_dimensions(self).0 + x);
                    &&& bytes@[i] == (#[trigger] rgba_pixels(self)[(x, y)]).0
                    &&& bytes@[i + 1] == rgba_pixels(self)[(x, y)].1
                    &&& bytes@[i + 2] == rgba_pixels(self)[(x, y)].2
                    &&& bytes@[i + 3] == rgba_pixels(self)[(x, y)].3
                },
    {
        let ghost pixels = rgba_pixels(self);
        let ghost (w, h) = rgba_dimensions(self);
        let bytes = rgba_into_raw(self);
        assert forall|x: u32, y: u32| x < w && y < h implies {
            let i = 4 * (y * w + x);
            &&& bytes@[i] == (#[trigger] pixels[(x, y)]).0
            &&& bytes@[i + 1] == pixels[(x, y)].1
            &&& bytes@[i + 2] == pixels[(x, y)].2
            &&& bytes@[i + 3] == pixels[(x, y)].3
        } by {
            lemma_raw_bytes_layout(pixels, w, h, x, y);
        }
        bytes
    }
}

/// Position, among the read-back channels, of channel `c` of pixel `(x, y)`
/// when consecutive rows start `stride` bytes (`stride / 4` channels) apart.
pub open spec fn channel_index(x: int, y: int, c: int, stride: int) -> int {
    y * (stride / 4) + x * 4 + c
}

/// Whether every channel of a `width` x `height` frame lies within `len`
/// read-back channels.
pub open spec fn reads_in_bounds(len: int, width: int, height: int, stride: int) -> bool {
    width == 0 || height == 0 || channel_index(width - 1, height - 1, 3, stride) < len
}

/// The pixel at `(x, y)` as the read-back channels give it.
pub open spec fn source_pixel(channels: Seq<u8>, x: int, y: int, stride: int) -> (u8, u8, u8, u8) {
    (
        channels[channel_index(x, y, 0, stride)],
        channels[channel_index(x, y, 1, stride)],
        channels[channel_index(x, y, 2, stride)],
        channels[channel_index(x, y, 3, stride)],
    )
}

/// The `width` x `height` image whose pixel `(x, y)` is the one at that
/// position in the read-back channels.
pub open spec fn image_from_channels(channels: Seq<u8>, width: u32, height: u32, stride: int) -> Map<(u32, u32), (u8, u8, u8, u8)> {
    Map::new(
        |p: (u32, u32)| p.0 < width && p.1 < height,
        |p: (u32, u32)| source_pixel(channels, p.0 as int, p.1 as int, stride),
    )
}

/// The image part way through its filling: the pixels of the rows before `y`
/// and those of row `y` before `x` come from the channels, the others are zero.
spec fn partly_filled(channels: Seq<u8>, width: u32, height: u32, stride: int, y: int, x: int) -> Map<(u32, u32), (u8, u8, u8, u8)> {
    Map::new(
        |p: (u32, u32)| p.0 < width && p.1 < height,
        |p: (u32, u32)|
            if p.1 < y || (p.1 == y && p.0 < x) {
                source_pixel(channels, p.0 as int, p.1 as int, stride)
            } else {
                (0u8, 0u8, 0u8, 0u8)
            },
    )
}

/// The image of a `width` x `height` frame from the channels read back from
/// the storage texture, in which rows start `stride` bytes apart and each
/// pixel is four consecutive channels (red, green, blue, alpha), each already
/// quantized to a byte.
pub fn gen_image(channels: &Vec<u8>, width: u32, height: u32, stride: usize) -> (img: RgbaImage)
    requires
        4 * width <= usize::MAX,
        4 * width * height <= usize::MAX,
        reads_in_bounds(channels.len() as int, width as int, height as int, stride as int),
        height == 0 || (height - 1) * (stride / 4) <= usize::MAX,
    ensures
        rgba_dimensions(img) == (width, height),
        rgba_pixels(img) == image_from_channels(channels@, width, height, stride as int),
        forall|p: (u32, u32)| #[trigger] rgba_pixels(img).dom().contains(p) <==> (p.0 < width && p.1 < height),
        forall|x: u32, y: u32|
            x < width && y < height ==> #[trigger] rgba_pixels(img)[(x, y)] == (
                channels@[y * (stride as int / 4) + 4 * x],
                channels@[y * (stride as int / 4) + 4 * x + 1],
                channels@[y * (stride as int / 4) + 4 * x + 2],
                channels@[y * (stride as int / 4) + 4 * x + 3],
            ),
{
    let mut image = new_rgba_image(width, height);
    let floats_per_row = stride / 4;
    let ghost ch = channels@;
    let ghost st = stride as int;
    assert(rgba_pixels(image) =~= partly_filled(ch, width, height, st, 0, 0));
    let mut y: u32 = 0;
    while y < height
        invariant
            y <= height,
            floats_per_row == stride / 4,
            ch == channels@,
            st == stride as int,
            reads_in_bounds(channels.len() as int, width as int, height as int, st),
            height == 0 || (height - 1) * floats_per_row <= usize::MAX,
            rgba_dimensions(image) == (width, height),
            rgba_pixels(image) == partly_filled(ch, width, height, st, y as int, 0),
        decreases height - y,
    {
        assert(y * floats_per_row <= (height - 1) * floats_per_row) by (nonlinear_arith)
            requires
                y <= height - 1,
        ;
        let row_start = y as usize * floats_per_row;
        let mut x: u32 = 0;
        while x < width
            invariant
                y < height,
                x <= width,
                floats_per_row == stride / 4,
                row_start == y * floats_per_row,
                row_start <= (height - 1) * floats_per_row,
                ch == channels@,
                st == stride as int,
                reads_in_bounds(channels.len() as int, width as int, height as int, st),
                rgba_dimensions(image) == (width, height),
                rgba_pixels(image) == partly_filled(ch, width, height, st, y as int, x as int),
            decreases width - x,
        {
            let pixel_start = row_start + x as usize * 4;
            let r = channels[pixel_start];
            let g = channels[pixel_start + 1];
            let b = channels[pixel_start + 2];
            let a = channels[pixel_start + 3];
            put_rgba_pixel(&mut image, x, y, (r, g, b, a));
            assert(rgba_pixels(image) =~= partly_filled(ch, width, height, st, y as int, x + 1));
            x = x + 1;
        }
        assert(rgba_pixels(image) =~= partly_filled(ch, width, height, st, y + 1, 0));
        y = y + 1;
    }
    assert(rgba_pixels(image) =~= image_from_channels(ch, width, height, st));
    proof {
        lemma_image_from_channels_pixels(ch, width, height, st);
    }
    image
}


/// Whether `gen_image` accepts a `width` x `height` frame read from `len`
/// channels whose rows start `stride` bytes apart.
pub open spec fn gen_image_accepts(len: int, width: u32, height: u32, stride: int) -> bool {
    &&& 4 * width <= usize::MAX
    &&& 4 * width * height <= usize::MAX
    &&& reads_in_bounds(len, width as int, height as int, stride)
    &&& height == 0 || (height - 1) * (stride / 4) <= usize::MAX
}

/// The image that `gen_image` makes of the channels, or `None` when it would
/// read past their end or the image, one of its rows or its row offsets
/// overflow `usize`.
pub fn try_gen_image(channels: &Vec<u8>, width: u32, height: u32, stride: usize) -> (img: Option<RgbaImage>)
    ensures
        img is Some <==> gen_image_accepts(channels.len() as int, width, height, stride as int),
        img matches Some(i) ==> {
            &&& rgba_dimensions(i) == (width, height)
            &&& rgba_pixels(i) == image_from_channels(channels@, width, height, stride as int)
        },
        img is Some <==> (4 * width <= usize::MAX && 4 * width * height <= usize::MAX && (height == 0
            || (height - 1) * (stride as int / 4) <= usize::MAX) && (width == 0 || height == 0 || (height
            - 1) * (stride as int / 4) + 4 * width - 1 < channels.len())),
{
    proof {
        lemma_gen_image_accepts_exactly(channels.len() as int, width, height, stride as int);
    }
    let w = width as usize;
    let h = height as usize;
    let floats_per_row = stride / 4;
    let row_channels = match w.checked_mul(4) {
        Some(n) => n,
        None => return None,
    };
    if row_channels.checked_mul(h).is_none() {
        return None;
    }
    if height > 0 {
        let last_row = match (h - 1).checked_mul(floats_per_row) {
            Some(r) => r,
            None => return None,
        };
        if width > 0 {
            let last = match (w - 1).checked_mul(4) {
                Some(c) => match c.checked_add(3) {
                    Some(c) => last_row.checked_add(c),
                    None => None,
                },
                None => None,
            };
            match last {
                Some(last) => {
                    if last >= channels.len() {
                        return None;
                    }
                },
                None => return None,
            }
        }
    }
    Some(gen_image(channels, width, height, stride))
}

/// The pixels of the image made of the channels: the image covers exactly the
/// `width` x `height` rectangle, and pixel `(x, y)` is the four channels that
/// start `4 * x` channels into row `y`, rows being `stride / 4` channels apart.
pub proof fn lemma_image_from_channels_pixels(channels: Seq<u8>, width: u32, height: u32, stride: int)
    ensures
        forall|p: (u32, u32)|
            #[trigger] image_from_channels(channels, width, height, stride).dom().contains(p) <==> (p.0
                < width && p.1 < height),
        forall|x: u32, y: u32|
            x < width && y < height ==> #[trigger] image_from_channels(channels, width, height, stride)[(
                x,
                y,
            )] == (
                channels[y * (stride / 4) + 4 * x],
                channels[y * (stride / 4) + 4 * x + 1],
                channels[y * (stride / 4) + 4 * x + 2],
                channels[y * (stride / 4) + 4 * x + 3],
            ),
{
}

/// `gen_image` accepts a frame exactly when one row and the whole image fit in
/// memory, the row offsets fit in `usize`, and the last channel of the last
/// pixel lies within the channels; how many channels follow it does not matter.
pub proof fn lemma_gen_image_accepts_exactly(len: int, width: u32, height: u32, stride: int)
    ensures
        gen_image_accepts(len, width, height, stride) <==> (4 * width <= usize::MAX && 4 * width * height
            <= usize::MAX && (height == 0 || (height - 1) * (stride / 4) <= usize::MAX) && (width == 0
            || height == 0 || (height - 1) * (stride / 4) + 4 * width - 1 < len)),
{
}

/// More channels never turn an accepted frame into a refused one.
pub proof fn lemma_gen_image_accepts_longer(len: int, longer: int, width: u32, height: u32, stride: int)
    requires
        gen_image_accepts(len, width, height, stride),
        len <= longer,
    ensures
        gen_image_accepts(longer, width, height, stride),
{
}

/// The bytes an image hands out are its pixels row by row: the four channels
/// of pixel `(x, y)` start at byte `4 * (y * width + x)`.
pub proof fn lemma_raw_bytes_layout(pixels: Map<(u32, u32), (u8, u8, u8, u8)>, width: u32, height: u32, x: u32, y: u32)
    requires
        x < width,
        y < height,
    ensures
        raw_bytes(pixels, width, height).len() == 4 * width * height,
        4 * (y * width + x) + 3 < 4 * width * height,
        raw_bytes(pixels, width, height)[4 * (y * width + x)] == pixels[(x, y)].0,
        raw_bytes(pixels, width, height)[4 * (y * width + x) + 1] == pixels[(x, y)].1,
        raw_bytes(pixels, width, height)[4 * (y * width + x) + 2] == pixels[(x, y)].2,
        raw_bytes(pixels, width, height)[4 * (y * width + x) + 3] == pixels[(x, y)].3,
{
    let w = width as int;
    let k = y * w + x;
    assert(k < w * height) by (nonlinear_arith)
        requires
            k == y * w + x,
            x < w,
            y < height,
    ;
    assert(4 * width * height == 4 * (w * height)) by (nonlinear_arith)
        requires
            w == width,
    ;
    vstd::arithmetic::div_mod::lemma_fundamental_div_mod_converse(k, w, y as int, x as int);
    vstd::arithmetic::div_mod::lemma_fundamental_div_mod_converse(4 * k, 4, k, 0);
    vstd::arithmetic::div_mod::lemma_fundamental_div_mod_converse(4 * k + 1, 4, k, 1);
    vstd::arithmetic::div_mod::lemma_fundamental_div_mod_converse(4 * k + 2, 4, k, 2);
    vstd::arithmetic::div_mod::lemma_fundamental_div_mod_converse(4 * k + 3, 4, k, 3);
}

/// The buffer that a compute pass over a `width` x `height` frame copies the
/// texture into holds every channel that `gen_image` reads of that frame
/// (one channel per 4 bytes, rows `bytes_per_row` apart), and the image fits
/// in memory: the read-back of a planned pass always meets `gen_image`'s
/// requirements.
pub proof fn lemma_readback_holds_frame(width: u32, height: u32)
    requires
        compute_pass_fits(width as int, height as int),
    ensures
        gen_image_accepts(
            spec_padded_bytes_per_row(width as int) * height / 4,
            width,
            height,
            spec_padded_bytes_per_row(width as int),
        ),
{
    let bpr = spec_padded_bytes_per_row(width as int);
    let fpr = bpr / 4;
    let w = width as int;
    let h = height as int;
    assert(bpr == 4 * fpr && fpr >= 4 * w);
    assert(bpr * h / 4 == fpr * h) by (nonlinear_arith)
        requires
            bpr == 4 * fpr,
            h >= 0,
    ;
    assert(4 * w * h <= bpr * h) by (nonlinear_arith)
        requires
            bpr >= 16 * w,
            h >= 0,
            w >= 0,
    ;
    if h > 0 {
        assert((h - 1) * fpr + fpr == fpr * h && (h - 1) * fpr <= bpr * h) by (nonlinear_arith)
            requires
                h > 0,
                fpr >= 0,
                bpr == 4 * fpr,
        ;
    }
}

/// Channels that no pixel reads (the padding at the end of each row, and
/// whatever follows the last row) do not change the image: two channel
/// sequences that agree on every channel read give the same image.
pub proof fn lemma_unread_channels_ignored(c1: Seq<u8>, c2: Seq<u8>, width: u32, height: u32, stride: int)
    requires
        forall|x: int, y: int, c: int|
            0 <= x < width && 0 <= y < height && 0 <= c < 4 ==> c1[#[trigger] channel_index(x, y, c, stride)]
                == c2[channel_index(x, y, c, stride)],
    ensures
        image_from_channels(c1, width, height, stride) == image_from_channels(c2, width, height, stride),
{
    assert forall|p: (u32, u32)| p.0 < width && p.1 < height implies
        #[trigger] source_pixel(c1, p.0 as int, p.1 as int, stride) == source_pixel(c2, p.0 as int, p.1 as int, stride) by {
        assert(c1[channel_index(p.0 as int, p.1 as int, 0, stride)] == c2[channel_index(p.0 as int, p.1 as int, 0, stride)]);
        assert(c1[channel_index(p.0 as int, p.1 as int, 1, stride)] == c2[channel_index(p.0 as int, p.1 as int, 1, stride)]);
        assert(c1[channel_index(p.0 as int, p.1 as int, 2, stride)] == c2[channel_index(p.0 as int, p.1 as int, 2, stride)]);
        assert(c1[channel_index(p.0 as int, p.1 as int, 3, stride)] == c2[channel_index(p.0 as int, p.1 as int, 3, stride)]);
    }
    assert(image_from_channels(c1, width, height, stride) =~= image_from_channels(c2, width, height, stride));
}

/// Distinct pixels of a frame whose rows hold at least `4 * width` channels
/// read distinct channels: the rows of the read-back never overlap.
pub proof fn lemma_channel_index_injective(
    stride: int,
    width: int,
    x1: int,
    y1: int,
    c1: int,
    x2: int,
    y2: int,
    c2: int,
)
    requires
        stride / 4 >= 4 * width,
        0 <= x1 < width,
        0 <= x2 < width,
        0 <= y1,
        0 <= y2,
        0 <= c1 < 4,
        0 <= c2 < 4,
        channel_index(x1, y1, c1, stride) == channel_index(x2, y2, c2, stride),
    ensures
        x1 == x2 && y1 == y2 && c1 == c2,
{
    let f = stride / 4;
    if y1 > y2 {
        assert((y1 - y2) * f >= f) by (nonlinear_arith)
            requires
                y1 - y2 >= 1,
                f >= 0,
        ;
        assert(y1 * f - y2 * f == (y1 - y2) * f) by (nonlinear_arith);
    } else if y2 > y1 {
        assert((y2 - y1) * f >= f) by (nonlinear_arith)
            requires
                y2 - y1 >= 1,
                f >= 0,
        ;
        assert(y2 * f - y1 * f == (y2 - y1) * f) by (nonlinear_arith);
    }
}

} // verus!
