//! Pixel layouts and rasters.
use vstd::prelude::*;

verus! {

/// The samples that make up a pixel, one byte each.
#[derive(Debug, Clone, Copy, PartialEq, Eq, Structural)]
pub enum PixelLayout {
    Luma,
    LumaAlpha,
    Rgb,
    Rgba,
}

impl PixelLayout {
    /// Bytes per pixel.
    pub open spec fn width(self) -> int {
        match self {
            PixelLayout::Luma => 1,
            PixelLayout::LumaAlpha => 2,
            PixelLayout::Rgb => 3,
            PixelLayout::Rgba => 4,
        }
    }

    /// Bytes per pixel.
    pub fn channels(self) -> (count: usize)
        ensures
            count == self.width(),
            1 <= count <= 4,
    {
        match self {
            PixelLayout::Luma => 1,
            PixelLayout::LumaAlpha => 2,
            PixelLayout::Rgb => 3,
            PixelLayout::Rgba => 4,
        }
    }

    /// The RGBA channel `c` of the pixel whose samples begin at `offset`.
    pub open spec fn channel(self, samples: Seq<u8>, offset: int, c: int) -> u8 {
        match self {
            PixelLayout::Luma => if c == 3 {
                255
            } else {
                samples[offset]
            },
            PixelLayout::LumaAlpha => if c == 3 {
                samples[offset + 1]
            } else {
                samples[offset]
            },
            PixelLayout::Rgb => if c == 3 {
                255
            } else {
                samples[offset + c]
            },
            PixelLayout::Rgba => samples[offset + c],
        }
    }

    /// The RGBA pixel whose samples begin at `offset`.
    pub open spec fn pixel(self, samples: Seq<u8>, offset: int) -> Seq<u8> {
        Seq::new(4, |c: int| self.channel(samples, offset, c))
    }
}

/// A picture of `width` by `height` pixels of `depth` bytes each, row by row, where
/// `channel(x, y, c)` is the byte `c` of the pixel at `x`, `y`.
pub open spec fn raster(
    width: int,
    height: int,
    depth: int,
    channel: spec_fn(int, int, int) -> u8,
) -> Seq<u8> {
    Seq::new(
        (width * height * depth) as nat,
        |i: int| channel((i / depth) % width, (i / depth) / width, i % depth),
    )
}

/// Where byte `c` of the pixel at `x`, `y` stands.
pub open spec fn raster_index(width: int, depth: int, x: int, y: int, c: int) -> int {
    (y * width + x) * depth + c
}

/// A raster's position determines its pixel and byte, and stands inside the raster.
pub proof fn lemma_raster_index(width: int, height: int, depth: int, x: int, y: int, c: int)
    requires
        0 <= x < width,
        0 <= y < height,
        0 <= c < depth,
    ensures
        ({
            let i = raster_index(width, depth, x, y, c);
            &&& 0 <= i < width * height * depth
            &&& (i / depth) % width == x
            &&& (i / depth) / width == y
            &&& i % depth == c
        }),
{
    let p = y * width + x;
    let i = p * depth + c;
    vstd::arithmetic::div_mod::lemma_fundamental_div_mod_converse(i, depth, p, c);
    vstd::arithmetic::div_mod::lemma_fundamental_div_mod_converse(p, width, y, x);
    assert(0 <= p < width * height) by (nonlinear_arith)
        requires
            p == y * width + x,
            0 <= x < width,
            0 <= y < height,
    ;
    assert(0 <= i < width * height * depth) by (nonlinear_arith)
        requires
            i == p * depth + c,
            0 <= p < width * height,
            0 <= c < depth,
    ;
}

/// The byte of a raster at the place of a pixel is that pixel's byte.
pub proof fn lemma_raster_at(
    width: int,
    height: int,
    depth: int,
    channel: spec_fn(int, int, int) -> u8,
    x: int,
    y: int,
    c: int,
)
    requires
        0 <= x < width,
        0 <= y < height,
        0 <= c < depth,
    ensures
        raster_index(width, depth, x, y, c) < raster(width, height, depth, channel).len(),
        raster(width, height, depth, channel)[raster_index(width, depth, x, y, c)] == channel(
            x,
            y,
            c,
        ),
{
    lemma_raster_index(width, height, depth, x, y, c);
}

/// A raster up to a pixel, followed by that pixel, is the raster up to the next one.
pub proof fn lemma_raster_extend(
    width: int,
    height: int,
    depth: int,
    channel: spec_fn(int, int, int) -> u8,
    x: int,
    y: int,
    part: Seq<u8>,
    pixel: Seq<u8>,
)
    requires
        0 <= x < width,
        0 <= y < height,
        0 < depth,
        part == raster(width, height, depth, channel).take((y * width + x) * depth),
        pixel.len() == depth,
        forall|c: int| 0 <= c < depth ==> #[trigger] pixel[c] == channel(x, y, c),
    ensures
        (y * width + x + 1) * depth <= raster(width, height, depth, channel).len(),
        part + pixel == raster(width, height, depth, channel).take((y * width + x + 1) * depth),
{
    let whole = raster(width, height, depth, channel);
    let start = (y * width + x) * depth;
    assert((y * width + x + 1) * depth == start + depth) by (nonlinear_arith)
        requires
            start == (y * width + x) * depth,
    ;
    lemma_raster_index(width, height, depth, x, y, depth - 1);
    assert forall|c: int| 0 <= c < depth implies #[trigger] whole[start + c] == pixel[c] by {
        lemma_raster_at(width, height, depth, channel, x, y, c);
    }
    assert(start >= 0) by (nonlinear_arith)
        requires
            start == (y * width + x) * depth,
            0 <= x,
            0 <= y,
            0 < width,
            0 < depth,
    ;
    assert(part + pixel =~= whole.take(start + depth)) by {
        assert forall|i: int| 0 <= i < start + depth implies (part + pixel)[i] == whole[i] by {
            if i >= start {
                assert(whole[start + (i - start)] == pixel[i - start]);
            }
        }
    }
}

/// Adds all of `part`.
pub fn push_all(out: &mut Vec<u8>, part: &[u8])
    ensures
        final(out)@ == old(out)@ + part@,
{
    let mut i: usize = 0;
    while i < part.len()
        invariant
            i <= part@.len(),
            out@ == old(out)@ + part@.take(i as int),
        decreases part.len() - i,
    {
        out.push(part[i]);
        i = i + 1;
        assert(out@ =~= old(out)@ + part@.take(i as int));
    }
    assert(part@.take(i as int) =~= part@);
}

/// Adds the RGBA pixel whose samples begin at `offset`.
pub fn push_pixel(out: &mut Vec<u8>, layout: PixelLayout, samples: &[u8], offset: usize)
    requires
        offset + layout.width() <= samples@.len(),
    ensures
        final(out)@ == old(out)@ + layout.pixel(samples@, offset as int),
{
    match layout {
        PixelLayout::Luma => {
            let gray: u8 = samples[offset];
            out.push(gray);
            out.push(gray);
            out.push(gray);
            out.push(255);
        },
        PixelLayout::LumaAlpha => {
            let gray: u8 = samples[offset];
            out.push(gray);
            out.push(gray);
            out.push(gray);
            out.push(samples[offset + 1]);
        },
        PixelLayout::Rgb => {
            out.push(samples[offset]);
            out.push(samples[offset + 1]);
            out.push(samples[offset + 2]);
            out.push(255);
        },
        PixelLayout::Rgba => {
            out.push(samples[offset]);
            out.push(samples[offset + 1]);
            out.push(samples[offset + 2]);
            out.push(samples[offset + 3]);
        },
    }
    assert(out@ =~= old(out)@ + layout.pixel(samples@, offset as int));
}

/// Samples of a layout as RGBA pixels.
pub open spec fn rgba_of(layout: PixelLayout, samples: Seq<u8>) -> Seq<u8> {
    Seq::new(
        (samples.len() as int / layout.width() * 4) as nat,
        |i: int| layout.channel(samples, i / 4 * layout.width(), i % 4),
    )
}

/// `rgba_of`, pixel by pixel; samples that do not make up a whole pixel are left out.
pub fn to_rgba(layout: PixelLayout, samples: &[u8]) -> (rgba: Vec<u8>)
    ensures
        rgba@ == rgba_of(layout, samples@),
{
    let channels: usize = layout.channels();
    let count: usize = samples.len() / channels;
    let mut rgba: Vec<u8> = Vec::new();
    let mut i: usize = 0;
    let mut offset: usize = 0;
    while i < count
        invariant
            i <= count,
            1 <= channels <= 4,
            channels == layout.width(),
            count == samples@.len() / channels as nat,
            offset == i * channels,
            offset <= samples@.len() <= usize::MAX,
            rgba@ == rgba_of(layout, samples@).take(4 * i),
            rgba_of(layout, samples@).len() == 4 * count,
        decreases count - i,
    {
        proof {
            vstd::arithmetic::div_mod::lemma_fundamental_div_mod(
                samples@.len() as int,
                channels as int,
            );
            assert(offset + channels <= samples@.len()) by (nonlinear_arith)
                requires
                    offset == i * channels,
                    i < count,
                    samples@.len() >= channels * count,
            ;
        }
        push_pixel(&mut rgba, layout, samples, offset);
        proof {
            let whole = rgba_of(layout, samples@);
            assert((i + 1) * channels == offset + channels) by (nonlinear_arith)
                requires
                    offset == i * channels,
            ;
            assert(rgba@ =~= whole.take(4 * (i + 1)));
        }
        offset = offset + channels;
        i = i + 1;
    }
    assert(rgba@ =~= rgba_of(layout, samples@));
    rgba
}

proof fn lemma_rgba_at(layout: PixelLayout, samples: Seq<u8>, i: int, offset: int)
    requires
        0 <= i,
        offset == i * layout.width(),
        offset + layout.width() <= samples.len(),
    ensures
        ({
            let rgba = rgba_of(layout, samples);
            &&& 4 * i + 3 < rgba.len()
            &&& layout.width() * rgba.len() <= 4 * samples.len()
            &&& rgba[4 * i] == layout.channel(samples, offset, 0)
            &&& rgba[4 * i + 1] == layout.channel(samples, offset, 1)
            &&& rgba[4 * i + 2] == layout.channel(samples, offset, 2)
            &&& rgba[4 * i + 3] == layout.channel(samples, offset, 3)
        }),
{
    let n = samples.len() as int;
    let d = layout.width();
    let q = n / d;
    vstd::arithmetic::div_mod::lemma_fundamental_div_mod(n, d);
    assert(i < q && d * (q * 4) <= 4 * n) by (nonlinear_arith)
        requires
            i * d + d <= n,
            n == d * q + n % d,
            0 <= n % d < d,
            d >= 1,
    ;
    assert((4 * i) / 4 == i && (4 * i + 1) / 4 == i && (4 * i + 2) / 4 == i && (4 * i + 3) / 4 == i);
}

/// RGBA pixels hold the samples of their own pixels in order: a gray sample becomes red, green and
/// blue, colors keep their places, and a pixel without an alpha sample is opaque.
pub proof fn rgba_pixels_hold_their_samples(samples: Seq<u8>, i: int)
    requires
        0 <= i,
    ensures
        rgba_of(PixelLayout::Luma, samples).len() == 4 * samples.len(),
        i < samples.len() ==> ({
            let rgba = rgba_of(PixelLayout::Luma, samples);
            &&& rgba[4 * i] == samples[i] && rgba[4 * i + 1] == samples[i]
            &&& rgba[4 * i + 2] == samples[i] && rgba[4 * i + 3] == 255
        }),
        2 * i + 1 < samples.len() ==> ({
            let rgba = rgba_of(PixelLayout::LumaAlpha, samples);
            &&& 4 * i + 3 < rgba.len() <= 2 * samples.len()
            &&& rgba[4 * i] == samples[2 * i] && rgba[4 * i + 1] == samples[2 * i]
            &&& rgba[4 * i + 2] == samples[2 * i] && rgba[4 * i + 3] == samples[2 * i + 1]
        }),
        3 * i + 2 < samples.len() ==> ({
            let rgba = rgba_of(PixelLayout::Rgb, samples);
            &&& 4 * i + 3 < rgba.len() && 3 * rgba.len() <= 4 * samples.len()
            &&& rgba[4 * i] == samples[3 * i] && rgba[4 * i + 1] == samples[3 * i + 1]
            &&& rgba[4 * i + 2] == samples[3 * i + 2] && rgba[4 * i + 3] == 255
        }),
        samples.len() % 4 == 0 ==> rgba_of(PixelLayout::Rgba, samples) == samples,
{
    if i < samples.len() {
        lemma_rgba_at(PixelLayout::Luma, samples, i, i);
    }
    if 2 * i + 1 < samples.len() {
        lemma_rgba_at(PixelLayout::LumaAlpha, samples, i, 2 * i);
    }
    if 3 * i + 2 < samples.len() {
        lemma_rgba_at(PixelLayout::Rgb, samples, i, 3 * i);
    }
    if samples.len() % 4 == 0 {
        lemma_rgba_stays(samples);
    }
}

proof fn lemma_rgba_stays(samples: Seq<u8>)
    requires
        samples.len() % 4 == 0,
    ensures
        rgba_of(PixelLayout::Rgba, samples) == samples,
{
    assert(rgba_of(PixelLayout::Rgba, samples) =~= samples);
}

/// Whether the four bytes of `rgba` at `k` show the pixel `x` of a row of samples.
pub open spec fn shows_sample(rgba: Seq<u8>, k: int, layout: PixelLayout, row: Seq<u8>, x: int) -> bool {
    match layout {
        PixelLayout::Luma => {
            &&& rgba[k] == row[x] && rgba[k + 1] == row[x] && rgba[k + 2] == row[x]
            &&& rgba[k + 3] == 255
        },
        PixelLayout::LumaAlpha => {
            &&& rgba[k] == row[2 * x] && rgba[k + 1] == row[2 * x] && rgba[k + 2] == row[2 * x]
            &&& rgba[k + 3] == row[2 * x + 1]
        },
        PixelLayout::Rgb => {
            &&& rgba[k] == row[3 * x] && rgba[k + 1] == row[3 * x + 1]
            &&& rgba[k + 2] == row[3 * x + 2] && rgba[k + 3] == 255
        },
        PixelLayout::Rgba => {
            &&& rgba[k] == row[4 * x] && rgba[k + 1] == row[4 * x + 1]
            &&& rgba[k + 2] == row[4 * x + 2] && rgba[k + 3] == row[4 * x + 3]
        },
    }
}

/// The four channels of a pixel show it.
pub proof fn channels_show_their_sample(
    rgba: Seq<u8>,
    k: int,
    layout: PixelLayout,
    row: Seq<u8>,
    x: int,
)
    requires
        forall|c: int| 0 <= c < 4 ==> #[trigger] rgba[k + c] == layout.channel(row, x * layout.width(), c),
    ensures
        shows_sample(rgba, k, layout, row, x),
{
    assert(rgba[k + 0] == layout.channel(row, x * layout.width(), 0));
    assert(rgba[k + 1] == layout.channel(row, x * layout.width(), 1));
    assert(rgba[k + 2] == layout.channel(row, x * layout.width(), 2));
    assert(rgba[k + 3] == layout.channel(row, x * layout.width(), 3));
}

/// Gray samples as RGBA pixels are the expanded gray values.
pub proof fn rgba_of_luma_is_expanded(samples: Seq<u8>)
    ensures
        rgba_of(PixelLayout::Luma, samples) == crate::worker::api::expanded_luma(samples),
{
    assert(rgba_of(PixelLayout::Luma, samples) =~= crate::worker::api::expanded_luma(samples));
}

/// The bytes of an optional vector.
pub open spec fn optional_bytes(bytes: Option<Vec<u8>>) -> Option<Seq<u8>> {
    match bytes {
        Some(bytes) => Some(bytes@),
        None => None,
    }
}

} // verus!
