//! PNG files, read row by row.
use crate::text;
use crate::worker::api::{
    clamp_target_long_edge, DecodeBackend, PageView, PreparedPage, MAX_TARGET_LONG_EDGE,
};
use crate::worker::pixels;
use crate::worker::pixels::PixelLayout;
use crate::worker::prepare::{
    display_dimensions, prepared_page_from_luma, prepared_page_from_rgba,
    reject_oversized_dimensions, reject_oversized_original, sampled_index_map, shared_bytes,
};
use std::sync::Arc;
use vstd::prelude::*;

verus! {

/// How much larger than the target an image must be to be sampled.
pub const PNG_SAMPLED_MIN_RATIO: u32 = 2;

/// The rows of a file, handed out one after the other by `png::Reader`.
#[verifier::external_body]
pub struct PngRows {
    pub(crate) reader: ::png::Reader<std::io::Cursor<Vec<u8>>>,
}

/// What the reader knows of a file before the first row.
#[derive(Debug, Clone, Copy, PartialEq, Eq, Structural)]
pub struct PngHead {
    pub width: u32,
    pub height: u32,
    pub interlaced: bool,
    pub animated: bool,
    /// The samples of a row's pixels; none where the rows hold palette indices.
    pub layout: Option<PixelLayout>,
    pub eight_bit: bool,
    /// The bytes of a row, where that many can be held.
    pub line_size: Option<usize>,
}

impl PngHead {
    /// Where samples have eight bits, a row has as many bytes as a row of pixels has samples.
    pub open spec fn rows_are_whole_pixels(self) -> bool {
        self.eight_bit && self.layout is Some && self.line_size is Some ==> self.line_size->0
            == self.layout->0.width() * self.width
    }
}

/// What `png::Decoder::read_info` finds in a file, and then `Reader::output_color_type` and
/// `Reader::output_line_size` for the file's width.
pub uninterp spec fn png_head(bytes: Seq<u8>) -> Result<PngHead, Seq<char>>;

/// What the call of `png::Reader::read_row` after `index` rows returns for a file.
pub uninterp spec fn png_row(bytes: Seq<u8>, index: int) -> Result<Option<Seq<u8>>, Seq<char>>;

/// The file that a reader reads, and how many rows it has handed out.
pub uninterp spec fn png_position(rows: PngRows) -> (Seq<u8>, int);

/// `png::Decoder::read_info` with the samples brought to eight bits and palettes expanded. The
/// reader stands before the first row.
#[verifier::external_body]
pub(crate) fn open_png(bytes: Vec<u8>) -> (opened: Result<PngRows, String>)
    ensures
        match opened {
            Ok(rows) => png_position(rows) == (bytes@, 0int),
            Err(message) => png_head(bytes@) == Err::<PngHead, Seq<char>>(message@),
        },
{
    let mut decoder = ::png::Decoder::new(std::io::Cursor::new(bytes));
    decoder.set_transformations(::png::Transformations::normalize_to_color8());
    let reader = decoder.read_info().map_err(|error| error.to_string())?;
    Ok(PngRows { reader })
}

/// `png::Reader::info`, `output_color_type` and `output_line_size`, before the first row is read.
/// Where samples have eight bits, a row has as many bytes as a row of pixels has samples.
#[verifier::external_body]
pub(crate) fn read_png_head(rows: &PngRows) -> (head: PngHead)
    requires
        png_position(*rows).1 == 0,
    ensures
        (png_head(png_position(*rows).0) == Ok::<PngHead, Seq<char>>(head)),
        head.rows_are_whole_pixels(),
{
    let reader = &rows.reader;
    let (color_type, bit_depth) = reader.output_color_type();
    let (width, height) = reader.info().size();
    let layout = match color_type {
        ::png::ColorType::Grayscale => Some(PixelLayout::Luma),
        ::png::ColorType::GrayscaleAlpha => Some(PixelLayout::LumaAlpha),
        ::png::ColorType::Rgb => Some(PixelLayout::Rgb),
        ::png::ColorType::Rgba => Some(PixelLayout::Rgba),
        ::png::ColorType::Indexed => None,
    };
    let (interlaced, animated) = (reader.info().interlaced, reader.info().is_animated());
    let (eight_bit, line_size) = (bit_depth == ::png::BitDepth::Eight, reader.output_line_size(width));
    PngHead { width, height, interlaced, animated, layout, eight_bit, line_size }
}

/// `png::Reader::read_row` into a fresh row of `line_size` bytes.
#[verifier::external_body]
fn read_png_row(rows: &mut PngRows, line_size: usize) -> (row: Result<Option<Vec<u8>>, String>)
    requires
        png_head(png_position(*old(rows)).0) matches Ok(head) && head.line_size == Some(line_size),
    ensures
        match row {
            Ok(Some(row)) => png_row(
                png_position(*old(rows)).0,
                png_position(*old(rows)).1,
            ) == Ok::<Option<Seq<u8>>, Seq<char>>(Some(row@)) && row@.len() == line_size,
            Ok(None) => png_row(png_position(*old(rows)).0, png_position(*old(rows)).1)
                == Ok::<Option<Seq<u8>>, Seq<char>>(None),
            Err(message) => png_row(png_position(*old(rows)).0, png_position(*old(rows)).1)
                == Err::<Option<Seq<u8>>, Seq<char>>(message@),
        },
        row is Ok ==> png_position(*final(rows)) == (
            png_position(*old(rows)).0,
            png_position(*old(rows)).1 + 1,
        ),
{
    let mut row = vec![0u8; line_size];
    let read = rows.reader.read_row(&mut row).map_err(|error| error.to_string())?;
    Ok(read.map(|_| row))
}

/// The row `index` of a file that has it.
pub open spec fn row_of(bytes: Seq<u8>, index: int) -> Seq<u8> {
    match png_row(bytes, index) {
        Ok(Some(row)) => row,
        _ => Seq::empty(),
    }
}

/// Why the rows from `from` up to `to` cannot all be read, if they cannot: the first failure, or
/// `ended` where the file has too few.
pub open spec fn rows_failure(bytes: Seq<u8>, from: int, to: int, ended: Seq<char>) -> Option<
    Seq<char>,
>
    decreases to - from,
{
    if from >= to {
        None
    } else {
        match png_row(bytes, from) {
            Err(message) => Some(message),
            Ok(None) => Some(ended),
            Ok(Some(_)) => rows_failure(bytes, from + 1, to, ended),
        }
    }
}

/// Rows are read where every one of them can be; the first one that cannot is what is told, and a
/// file that ends too early is told as such.
pub proof fn the_first_missing_row_is_told(
    bytes: Seq<u8>,
    from: int,
    to: int,
    ended: Seq<char>,
    y: int,
)
    requires
        from <= y < to,
        forall|k: int|
            from <= k < y ==> (#[trigger] png_row(bytes, k)) matches Ok(Some(_)),
    ensures
        png_row(bytes, y) matches Err(message) ==> rows_failure(bytes, from, to, ended) == Some(
            message,
        ),
        png_row(bytes, y) == Ok::<Option<Seq<u8>>, Seq<char>>(None) ==> rows_failure(
            bytes,
            from,
            to,
            ended,
        ) == Some(ended),
        rows_failure(bytes, from, to, ended) is None ==> png_row(bytes, y) matches Ok(Some(_)),
        rows_failure(bytes, from, y, ended) is None,
    decreases y - from,
{
    if from < y {
        assert(png_row(bytes, from) matches Ok(Some(_)));
        the_first_missing_row_is_told(bytes, from + 1, to, ended, y);
    }
}

/// Byte `c` of the pixel at `x`, `y`: gray pixels kept as such have one, others four.
pub open spec fn png_channel(bytes: Seq<u8>, layout: PixelLayout, x: int, y: int, c: int) -> u8 {
    layout.channel(row_of(bytes, y), x * layout.width(), c)
}

/// Bytes per retained pixel: gray pixels are kept at one byte.
pub open spec fn retained_depth(layout: PixelLayout) -> int {
    if layout == PixelLayout::Luma {
        1
    } else {
        4
    }
}

/// A file's picture reduced to `width` by `height` pixels.
pub open spec fn sampled_png(
    bytes: Seq<u8>,
    head: PngHead,
    layout: PixelLayout,
    width: int,
    height: int,
) -> Seq<u8> {
    pixels::raster(
        width,
        height,
        retained_depth(layout),
        |x: int, y: int, c: int|
            png_channel(
                bytes,
                layout,
                crate::worker::prepare::sampled_source(x, width, head.width as int),
                crate::worker::prepare::sampled_source(y, height, head.height as int),
                c,
            ),
    )
}

/// A sampled pixel shows its source pixel: the samples of the row that holds it, at its place in
/// the row. Gray pixels are kept at one byte. The source pixel is the one at the middle of the part
/// of the picture that the sampled pixel covers.
pub proof fn sampled_png_pixels_are_the_files(
    bytes: Seq<u8>,
    head: PngHead,
    layout: PixelLayout,
    size: (int, int),
    at: (int, int),
    from: (int, int),
    row: Seq<u8>,
)
    requires
        head.width > 0 && head.height > 0,
        0 <= at.0 < size.0,
        0 <= at.1 < size.1,
        2 * size.0 * from.0 <= (2 * at.0 + 1) * head.width < 2 * size.0 * (from.0 + 1),
        2 * size.1 * from.1 <= (2 * at.1 + 1) * head.height < 2 * size.1 * (from.1 + 1),
        png_row(bytes, from.1) == Ok::<Option<Seq<u8>>, Seq<char>>(Some(row)),
    ensures
        0 <= from.0 < head.width && 0 <= from.1 < head.height,
        ({
            let kept = sampled_png(bytes, head, layout, size.0, size.1);
            let k = at.1 * size.0 + at.0;
            if layout == PixelLayout::Luma {
                &&& kept.len() == size.0 * size.1
                &&& 0 <= k < kept.len() && kept[k] == row[from.0]
            } else {
                &&& kept.len() == 4 * (size.0 * size.1)
                &&& 0 <= 4 * k && 4 * k + 3 < kept.len()
                &&& pixels::shows_sample(kept, 4 * k, layout, row, from.0)
            }
        }),
{
    let (w, h) = (head.width as int, head.height as int);
    crate::worker::prepare::sampled_source_holds_the_middle(at.0, size.0, w, from.0);
    crate::worker::prepare::sampled_source_holds_the_middle(at.1, size.1, h, from.1);
    crate::worker::prepare::sampled_source_stays_inside(at.0, at.0, size.0, w);
    crate::worker::prepare::sampled_source_stays_inside(at.1, at.1, size.1, h);
    let depth = retained_depth(layout);
    let channel = |x: int, y: int, c: int|
        png_channel(
            bytes,
            layout,
            crate::worker::prepare::sampled_source(x, size.0, w),
            crate::worker::prepare::sampled_source(y, size.1, h),
            c,
        );
    let kept = sampled_png(bytes, head, layout, size.0, size.1);
    assert(kept =~= pixels::raster(size.0, size.1, depth, channel));
    let k = at.1 * size.0 + at.0;
    pixels::lemma_raster_index(size.0, size.1, 1, at.0, at.1, 0);
    pixels::lemma_raster_at(size.0, size.1, depth, channel, at.0, at.1, 0);
    if layout == PixelLayout::Luma {
        assert(pixels::raster_index(size.0, 1, at.0, at.1, 0) == k);
        assert(size.0 * size.1 * 1 == size.0 * size.1);
        assert(png_channel(bytes, layout, from.0, from.1, 0) == row[from.0 * 1]);
    } else {
        assert forall|c: int| 0 <= c < 4 implies #[trigger] kept[4 * k + c] == layout.channel(
            row,
            from.0 * layout.width(),
            c,
        ) by {
            pixels::lemma_raster_at(size.0, size.1, depth, channel, at.0, at.1, c);
        }
        pixels::channels_show_their_sample(kept, 4 * k, layout, row, from.0);
    }
}

/// Whether the rows of two files hold the same gray picture, the one as gray samples and the other
/// as RGB samples.
pub open spec fn are_gray_twins(gray: Seq<u8>, color: Seq<u8>, width: int, height: int) -> bool {
    forall|x: int, y: int, c: int|
        #![trigger row_of(color, y)[x * 3 + c]]
        0 <= x < width && 0 <= y < height && 0 <= c < 3 ==> row_of(color, y)[x * 3 + c] == row_of(
            gray,
            y,
        )[x]
}

/// A gray file and an RGB file of the same gray picture are reduced to the same pixels: what is
/// kept at one byte per pixel expands to what the other has.
pub proof fn gray_rows_expand_to_their_rgb_twin(
    gray: Seq<u8>,
    color: Seq<u8>,
    head: PngHead,
    width: int,
    height: int,
)
    requires
        0 < head.width,
        0 < head.height,
        0 < width,
        0 < height,
        are_gray_twins(gray, color, head.width as int, head.height as int),
    ensures
        crate::worker::api::expanded_luma(
            sampled_png(gray, head, PixelLayout::Luma, width, height),
        ) == sampled_png(color, head, PixelLayout::Rgb, width, height),
{
    let luma = sampled_png(gray, head, PixelLayout::Luma, width, height);
    let rgba = sampled_png(color, head, PixelLayout::Rgb, width, height);
    let expanded = crate::worker::api::expanded_luma(luma);
    let area = width * height;
    assert(area > 0) by (nonlinear_arith)
        requires
            area == width * height,
            0 < width,
            0 < height,
    ;
    assert(width * height * 1 == area && width * height * 4 == 4 * area);
    assert forall|i: int| 0 <= i < 4 * area implies expanded[i] == rgba[i] by {
        crate::worker::metadata::lemma_position(width, height, 4, i);
        let x = (i / 4) % width;
        let y = (i / 4) / width;
        let c = i % 4;
        crate::worker::prepare::sampled_source_stays_inside(x, x, width, head.width as int);
        crate::worker::prepare::sampled_source_stays_inside(y, y, height, head.height as int);
        let sx = crate::worker::prepare::sampled_source(x, width, head.width as int);
        let sy = crate::worker::prepare::sampled_source(y, height, head.height as int);
        assert(0 <= i / 4 < area);
        assert((i / 4) / 1 == i / 4 && (i / 4) % 1 == 0);
        if c != 3 {
            assert(row_of(color, sy)[sx * 3 + c] == row_of(gray, sy)[sx]);
        }
    }
    assert(expanded =~= rgba);
}

/// Adds one row of a raster, taking the pixels at `columns` from a row of samples.
fn push_row(
    out: &mut Vec<u8>,
    layout: PixelLayout,
    depth: usize,
    row: &Vec<u8>,
    columns: &Vec<usize>,
    Ghost(channel): Ghost<spec_fn(int, int, int) -> u8>,
    Ghost(height): Ghost<int>,
    Ghost(y): Ghost<int>,
)
    requires
        depth == 4 || (depth == 1 && layout == PixelLayout::Luma),
        0 <= y < height,
        forall|i: int|
            0 <= i < columns@.len() ==> (#[trigger] columns@[i] + 1) * layout.width()
                <= row@.len(),
        forall|x: int, c: int|
            0 <= x < columns@.len() && 0 <= c < depth ==> #[trigger] channel(x, y, c)
                == layout.channel(row@, columns@[x] * layout.width(), c),
        old(out)@ == pixels::raster(columns@.len() as int, height, depth as int, channel).take(
            (y * columns@.len()) * depth,
        ),
    ensures
        final(out)@ == pixels::raster(columns@.len() as int, height, depth as int, channel).take(
            ((y + 1) * columns@.len()) * depth,
        ),
{
    let channels: usize = layout.channels();
    let width: usize = columns.len();
    let mut x: usize = 0;
    let ghost whole = pixels::raster(width as int, height, depth as int, channel);
    while x < width
        invariant
            x <= width,
            width == columns@.len(),
            channels == layout.width(),
            depth == 4 || (depth == 1 && layout == PixelLayout::Luma),
            0 <= y < height,
            forall|i: int|
                0 <= i < columns@.len() ==> (#[trigger] columns@[i] + 1) * layout.width()
                    <= row@.len(),
            forall|x: int, c: int|
                0 <= x < columns@.len() && 0 <= c < depth ==> #[trigger] channel(x, y, c)
                    == layout.channel(row@, columns@[x] * layout.width(), c),
            whole == pixels::raster(width as int, height, depth as int, channel),
            out@ == whole.take((y * width + x) * depth),
        decreases width - x,
    {
        let column: usize = columns[x];
        proof {
            assert((column + 1) * channels == column * channels + channels) by (nonlinear_arith);
            assert(column * channels >= 0) by (nonlinear_arith);
            assert((columns@[x as int] + 1) * layout.width() <= row@.len());
            assert(row.len() == row@.len());
        }
        let offset: usize = column * channels;
        let ghost part = out@;
        let ghost pixel = Seq::new(depth as nat, |c: int| layout.channel(row@, offset as int, c));
        if depth == 1 {
            out.push(row[offset]);
        } else {
            pixels::push_pixel(out, layout, row.as_slice(), offset);
        }
        proof {
            assert(out@ =~= part + pixel);
            pixels::lemma_raster_extend(
                width as int,
                height,
                depth as int,
                channel,
                x as int,
                y,
                part,
                pixel,
            );
        }
        x = x + 1;
    }
    assert((y + 1) * width == y * width + width) by (nonlinear_arith);
}

/// Reads all rows and keeps the pixels at the sampled positions.
fn sample_png_rows(
    rows: &mut PngRows,
    head: PngHead,
    layout: PixelLayout,
    line_size: usize,
    display_width: u32,
    display_height: u32,
) -> (raw: Result<Vec<u8>, String>)
    requires
        png_position(*old(rows)).1 == 0,
        png_head(png_position(*old(rows)).0) == Ok::<PngHead, Seq<char>>(head),
        head.layout == Some(layout),
        head.line_size == Some(line_size),
        line_size == layout.width() * head.width,
        0 < head.width <= 20_000,
        0 < head.height <= 20_000,
        0 < display_width <= 20_000,
        0 < display_height <= 20_000,
    ensures
        match raw {
            Ok(raw) => rows_failure(
                png_position(*old(rows)).0,
                0,
                head.height as int,
                "PNG ended before all rows were decoded"@,
            ) is None && raw@ == sampled_png(
                png_position(*old(rows)).0,
                head,
                layout,
                display_width as int,
                display_height as int,
            ),
            Err(message) => rows_failure(
                png_position(*old(rows)).0,
                0,
                head.height as int,
                "PNG ended before all rows were decoded"@,
            ) == Some(message@),
        },
{
    let ghost bytes = png_position(*old(rows)).0;
    let ghost ended = "PNG ended before all rows were decoded"@;
    let width: usize = display_width as usize;
    let height: usize = display_height as usize;
    let source_height: usize = head.height as usize;
    let depth: usize = if matches!(layout, PixelLayout::Luma) {
        1
    } else {
        4
    };
    proof {
        assert(2 * width * head.width <= 0x7fff_ffff && 2 * height * head.height <= 0x7fff_ffff)
            by (nonlinear_arith)
            requires
                width <= 20_000,
                height <= 20_000,
                head.width <= 20_000,
                head.height <= 20_000,
        ;
    }
    let columns = sampled_index_map(width, head.width as usize);
    let picks = sampled_index_map(height, source_height);
    let ghost channel = |x: int, y: int, c: int|
        png_channel(
            bytes,
            layout,
            crate::worker::prepare::sampled_source(x, width as int, head.width as int),
            crate::worker::prepare::sampled_source(y, height as int, head.height as int),
            c,
        );
    let ghost whole = pixels::raster(width as int, height as int, depth as int, channel);
    let mut raw: Vec<u8> = Vec::new();
    let mut next: usize = 0;
    let mut source_y: usize = 0;
    proof {
        assert(whole.take(0) =~= Seq::<u8>::empty());
        assert((0 * width) * depth == 0) by (nonlinear_arith);
        assert forall|i: int| 0 <= i < width implies (#[trigger] columns@[i] + 1) * layout.width()
            <= line_size by {
            assert((columns@[i] + 1) * layout.width() <= layout.width() * head.width)
                by (nonlinear_arith)
                requires
                    columns@[i] + 1 <= head.width,
                    layout.width() >= 0,
            ;
        }
    }
    while source_y < source_height
        invariant
            source_y <= source_height,
            source_height == head.height,
            width == display_width,
            height == display_height,
            next <= height,
            depth == retained_depth(layout),
            bytes == png_position(*old(rows)).0,
            png_position(*rows) == (bytes, source_y as int),
            png_head(bytes) == Ok::<PngHead, Seq<char>>(head),
            head.layout == Some(layout),
            head.line_size == Some(line_size),
            columns@.len() == width,
            picks@.len() == height,
            forall|i: int|
                0 <= i < width ==> #[trigger] columns@[i] == crate::worker::prepare::sampled_source(
                    i,
                    width as int,
                    head.width as int,
                ),
            forall|i: int|
                0 <= i < width ==> (#[trigger] columns@[i] + 1) * layout.width() <= line_size,
            forall|i: int|
                0 <= i < height ==> #[trigger] picks@[i] == crate::worker::prepare::sampled_source(
                    i,
                    height as int,
                    head.height as int,
                ),
            forall|i: int| next <= i < height ==> #[trigger] picks@[i] >= source_y,
            ended == "PNG ended before all rows were decoded"@,
            rows_failure(bytes, 0, head.height as int, ended) == rows_failure(
                bytes,
                source_y as int,
                head.height as int,
                ended,
            ),
            channel == (|x: int, y: int, c: int|
                png_channel(
                    bytes,
                    layout,
                    crate::worker::prepare::sampled_source(x, width as int, head.width as int),
                    crate::worker::prepare::sampled_source(y, height as int, head.height as int),
                    c,
                )),
            whole == pixels::raster(width as int, height as int, depth as int, channel),
            raw@ == whole.take((next * width) * depth),
        decreases source_height - source_y,
    {
        let row: Vec<u8> = match read_png_row(rows, line_size)? {
            Some(row) => row,
            None => {
                return Err("PNG ended before all rows were decoded".to_owned());
            },
        };
        assert(row_of(bytes, source_y as int) == row@);
        while next < height && picks[next] == source_y
            invariant
                next <= height,
                width == display_width,
                height == display_height,
                depth == retained_depth(layout),
                columns@.len() == width,
                picks@.len() == height,
                row@ == row_of(bytes, source_y as int),
                row@.len() == line_size,
                forall|i: int|
                    0 <= i < width ==> #[trigger] columns@[i]
                        == crate::worker::prepare::sampled_source(
                        i,
                        width as int,
                        head.width as int,
                    ),
                forall|i: int|
                    0 <= i < width ==> (#[trigger] columns@[i] + 1) * layout.width() <= line_size,
                forall|i: int|
                    0 <= i < height ==> #[trigger] picks@[i]
                        == crate::worker::prepare::sampled_source(
                        i,
                        height as int,
                        head.height as int,
                    ),
                forall|i: int| next <= i < height ==> #[trigger] picks@[i] >= source_y,
                channel == (|x: int, y: int, c: int|
                    png_channel(
                        bytes,
                        layout,
                        crate::worker::prepare::sampled_source(x, width as int, head.width as int),
                        crate::worker::prepare::sampled_source(
                            y,
                            height as int,
                            head.height as int,
                        ),
                        c,
                    )),
                whole == pixels::raster(width as int, height as int, depth as int, channel),
                raw@ == whole.take((next * width) * depth),
            decreases height - next,
        {
            push_row(
                &mut raw,
                layout,
                depth,
                &row,
                &columns,
                Ghost(channel),
                Ghost(height as int),
                Ghost(next as int),
            );
            next = next + 1;
        }
        proof {
            assert forall|i: int| next <= i < height implies #[trigger] picks@[i] >= source_y
                + 1 by {
                crate::worker::prepare::sampled_source_stays_inside(
                    next as int,
                    i,
                    height as int,
                    head.height as int,
                );
                assert(picks@[next as int] >= source_y);
            }
        }
        source_y = source_y + 1;
    }
    proof {
        if next < height {
            crate::worker::prepare::sampled_source_stays_inside(
                next as int,
                next as int,
                height as int,
                head.height as int,
            );
            assert(picks@[next as int] >= source_y);
        }
        assert((height * width) * depth == width * height * depth) by (nonlinear_arith);
        assert(whole.take(width * height * depth) =~= whole);
    }
    Ok(raw)
}

/// What became of a file that was tried row by row.
pub enum PngRowResult {
    Unsupported,
    Sampled(PreparedPage),
    ExactOriginal(PreparedPage),
}

/// Why a file could not be read row by row, and whether another decoder may be tried.
#[derive(Debug)]
pub enum PngRowError {
    ExactOriginal(String),
    FallbackAllowed(String),
}

/// `PngRowResult` as plain data.
pub enum PngRowView {
    Unsupported,
    Sampled(PageView),
    ExactOriginal(PageView),
}

/// `PngRowError` as plain data.
pub enum PngErrorView {
    ExactOriginal(Seq<char>),
    FallbackAllowed(Seq<char>),
}

/// The outcome of reading row by row as plain data.
pub open spec fn row_outcome(result: Result<PngRowResult, PngRowError>) -> Result<
    PngRowView,
    PngErrorView,
> {
    match result {
        Ok(PngRowResult::Unsupported) => Ok(PngRowView::Unsupported),
        Ok(PngRowResult::Sampled(page)) => Ok(PngRowView::Sampled(page@)),
        Ok(PngRowResult::ExactOriginal(page)) => Ok(PngRowView::ExactOriginal(page@)),
        Err(PngRowError::ExactOriginal(message)) => Err(PngErrorView::ExactOriginal(message@)),
        Err(PngRowError::FallbackAllowed(message)) => Err(PngErrorView::FallbackAllowed(message@)),
    }
}

/// The first eight bytes of every PNG file.
pub open spec fn has_png_signature(bytes: Seq<u8>) -> bool {
    &&& bytes.len() >= 8
    &&& bytes[0] == 0x89
    &&& bytes[1] == 0x50
    &&& bytes[2] == 0x4e
    &&& bytes[3] == 0x47
    &&& bytes[4] == 0x0d
    &&& bytes[5] == 0x0a
    &&& bytes[6] == 0x1a
    &&& bytes[7] == 0x0a
}

pub fn is_png(bytes: &[u8]) -> (png: bool)
    ensures
        png == has_png_signature(bytes@),
{
    bytes.len() >= 8 && bytes[0] == 0x89 && bytes[1] == 0x50 && bytes[2] == 0x4e && bytes[3] == 0x47
        && bytes[4] == 0x0d && bytes[5] == 0x0a && bytes[6] == 0x1a && bytes[7] == 0x0a
}

/// An error of the exact path is final; one of the sampled path leaves another decoder to try.
pub open spec fn row_error(exact: bool, message: Seq<char>) -> PngErrorView {
    if exact {
        PngErrorView::ExactOriginal(message)
    } else {
        PngErrorView::FallbackAllowed(message)
    }
}

/// What becomes of a file whose rows can be read one by one: an original kept for inspection is
/// taken whole, and where `sampling` is allowed an image much larger than the target is reduced.
pub open spec fn png_page(bytes: Seq<u8>, target_long_edge: u32, sampling: bool) -> Result<
    PngRowView,
    PngErrorView,
> {
    let target = crate::worker::api::clamped_target(target_long_edge);
    match png_head(bytes) {
        _ if !has_png_signature(bytes) => Ok(PngRowView::Unsupported),
        Err(message) => Err(PngErrorView::FallbackAllowed(message)),
        Ok(head) => {
            let size = crate::worker::prepare::display_size(head.width, head.height, target, false);
            let exact = target > MAX_TARGET_LONG_EDGE && size == (head.width, head.height);
            let sampled = sampling && crate::worker::prepare::longest_edge(head.width, head.height)
                >= target * PNG_SAMPLED_MIN_RATIO;
            let too_large = crate::worker::prepare::original_rejection(head.width, head.height);
            if head.interlaced || head.animated {
                Ok(PngRowView::Unsupported)
            } else if !crate::worker::prepare::within_dimensions(head.width, head.height) {
                Err(
                    PngErrorView::FallbackAllowed(
                        crate::worker::prepare::dimensions_message(head.width, head.height),
                    ),
                )
            } else if head.width == 0 || head.height == 0 {
                Err(PngErrorView::FallbackAllowed("Image has zero-sized dimensions"@))
            } else if !exact && !sampled {
                Ok(PngRowView::Unsupported)
            } else if exact && too_large is Some {
                Err(PngErrorView::ExactOriginal(too_large->0))
            } else if !head.eight_bit {
                Ok(PngRowView::Unsupported)
            } else {
                png_rows_page(bytes, head, size, target, exact)
            }
        },
    }
}

/// `png_page` once it is settled that the rows are read.
pub open spec fn png_rows_page(
    bytes: Seq<u8>,
    head: PngHead,
    size: (u32, u32),
    target: u32,
    exact: bool,
) -> Result<PngRowView, PngErrorView> {
    match (head.layout, head.line_size) {
        (None, _) => Err(PngErrorView::FallbackAllowed("Indexed PNG was not expanded to RGB"@)),
        (_, None) => Err(row_error(exact, "PNG output row size exceeds platform limits"@)),
        (Some(layout), Some(_)) => {
            match rows_failure(
                bytes,
                0,
                head.height as int,
                "PNG ended before all rows were decoded"@,
            ) {
                Some(message) => Err(row_error(exact, message)),
                None => match crate::worker::prepare::assembled_page(
                    layout == PixelLayout::Luma,
                    sampled_png(bytes, head, layout, size.0 as int, size.1 as int),
                    (head.width, head.height),
                    size,
                    target,
                    if exact {
                        DecodeBackend::PngExactRows
                    } else {
                        DecodeBackend::PngSampled
                    },
                ) {
                    Err(message) => Err(row_error(exact, message)),
                    Ok(page) => if exact {
                        Ok(PngRowView::ExactOriginal(page))
                    } else {
                        Ok(PngRowView::Sampled(page))
                    },
                },
            }
        },
    }
}

/// A page read row by row is the file's picture: its original size is the file's, it is shown at the
/// size that fits the target, and it is gray where the file is. An original taken whole keeps its
/// size and is asked for beyond the navigation sizes; a reduced one comes of a file at least twice as
/// large as the target, and only where sampling is allowed.
pub proof fn pages_of_rows_show_the_file(
    bytes: Seq<u8>,
    target_long_edge: u32,
    sampling: bool,
    head: PngHead,
    page: PageView,
)
    requires
        png_head(bytes) == Ok::<PngHead, Seq<char>>(head),
        png_page(bytes, target_long_edge, sampling) == Ok::<PngRowView, PngErrorView>(
            PngRowView::ExactOriginal(page),
        ) || png_page(bytes, target_long_edge, sampling) == Ok::<PngRowView, PngErrorView>(
            PngRowView::Sampled(page),
        ),
    ensures
        page.original == (head.width as int, head.height as int),
        ({
            let size = crate::worker::prepare::display_size(
                head.width,
                head.height,
                target_long_edge,
                false,
            );
            &&& page.display == (size.0 as int, size.1 as int)
            &&& head.layout matches Some(layout) && page.bytes == sampled_png(
                bytes,
                head,
                layout,
                size.0 as int,
                size.1 as int,
            ) && page.luma == (layout == PixelLayout::Luma)
        }),
        head.eight_bit && !head.interlaced && !head.animated,
        png_page(bytes, target_long_edge, sampling) matches Ok(PngRowView::ExactOriginal(_)) ==> {
            &&& page.display == page.original && target_long_edge > 4096
            &&& page.decode_backend == DecodeBackend::PngExactRows
        },
        png_page(bytes, target_long_edge, sampling) matches Ok(PngRowView::Sampled(_)) ==> {
            &&& sampling && page.decode_backend == DecodeBackend::PngSampled
            &&& head.width >= 2 * page.target_long_edge || head.height >= 2
                * page.target_long_edge
        },
{
}

/// Whether a gray page shows what an RGBA page shows: it has a byte where that has a pixel, and its
/// bytes expand to those pixels.
pub open spec fn shows_the_same(gray: PageView, color: PageView) -> bool {
    &&& gray.luma && !color.luma
    &&& gray.display == color.display && gray.original == color.original
    &&& gray.decode_backend == color.decode_backend
    &&& gray.byte_size == gray.display.0 * gray.display.1
    &&& crate::worker::api::expanded_luma(gray.bytes) == color.bytes
}

/// Whether two files hold the same gray picture, the one as gray samples and the other as RGB
/// samples, with nothing else to tell them apart, and all their rows can be read.
pub open spec fn are_gray_twin_files(gray: Seq<u8>, color: Seq<u8>) -> bool {
    let ended = "PNG ended before all rows were decoded"@;
    &&& has_png_signature(gray)
    &&& has_png_signature(color)
    &&& png_head(gray) matches Ok(gray_head) && png_head(color) matches Ok(color_head) && {
        &&& gray_head.layout == Some(PixelLayout::Luma)
        &&& color_head.layout == Some(PixelLayout::Rgb)
        &&& gray_head.line_size is Some
        &&& color_head.line_size is Some
        &&& color_head == (PngHead {
            layout: color_head.layout,
            line_size: color_head.line_size,
            ..gray_head
        })
        &&& rows_failure(gray, 0, gray_head.height as int, ended) is None
        &&& rows_failure(color, 0, gray_head.height as int, ended) is None
        &&& are_gray_twins(gray, color, gray_head.width as int, gray_head.height as int)
    }
}

/// Whether the rows of a file are sampled for a target: it has eight bits per sample and stands
/// still, and it is much larger than the target, whose page is within the budget of one page.
pub open spec fn rows_are_sampled(head: PngHead, target_long_edge: u32) -> bool {
    let target = crate::worker::api::clamped_target(target_long_edge);
    let size = crate::worker::prepare::display_size(head.width, head.height, target, false);
    &&& !head.interlaced && !head.animated && head.eight_bit
    &&& crate::worker::prepare::within_dimensions(head.width, head.height)
    &&& 0 < head.width && 0 < head.height
    &&& target <= MAX_TARGET_LONG_EDGE
    &&& crate::worker::prepare::longest_edge(head.width, head.height) >= target
        * PNG_SAMPLED_MIN_RATIO
    &&& size.0 * size.1 * 4 <= crate::worker::api::MAX_DECODED_PAGE_BYTES
}

/// A gray file and an RGB file of the same gray picture fare alike when they are read row by row,
/// and the page of the one, at a byte per pixel, shows what that of the other shows. One much larger
/// than the target is sampled.
pub proof fn gray_pages_match_their_rgb_twin(
    gray: Seq<u8>,
    color: Seq<u8>,
    target_long_edge: u32,
    sampling: bool,
)
    requires
        are_gray_twin_files(gray, color),
    ensures
        match (
            png_page(gray, target_long_edge, sampling),
            png_page(color, target_long_edge, sampling),
        ) {
            (Ok(PngRowView::ExactOriginal(left)), Ok(PngRowView::ExactOriginal(right))) => {
                shows_the_same(left, right)
            },
            (Ok(PngRowView::Sampled(left)), Ok(PngRowView::Sampled(right))) => shows_the_same(
                left,
                right,
            ),
            (Ok(PngRowView::Unsupported), Ok(PngRowView::Unsupported)) => true,
            (Err(left), Err(right)) => left == right,
            _ => false,
        },
        sampling && rows_are_sampled(png_head(gray)->Ok_0, target_long_edge) ==> {
            &&& png_page(gray, target_long_edge, sampling) matches Ok(PngRowView::Sampled(page))
            &&& page.decode_backend == DecodeBackend::PngSampled
        },
{
    let head = png_head(gray)->Ok_0;
    let color_head = png_head(color)->Ok_0;
    if crate::worker::prepare::within_dimensions(head.width, head.height) && head.width > 0
        && head.height > 0 {
        let target = crate::worker::api::clamped_target(target_long_edge);
        let size = crate::worker::prepare::display_size(head.width, head.height, target, false);
        crate::worker::prepare::display_size_fits_the_target(
            head.width,
            head.height,
            target,
            false,
        );
        let area = size.0 * size.1;
        assert(0 < area <= 400_000_000) by (nonlinear_arith)
            requires
                area == size.0 * size.1,
                1 <= size.0 <= 20_000,
                1 <= size.1 <= 20_000,
        ;
        gray_rows_expand_to_their_rgb_twin(gray, color, head, size.0 as int, size.1 as int);
        assert(sampled_png(color, head, PixelLayout::Rgb, size.0 as int, size.1 as int)
            =~= sampled_png(color, color_head, PixelLayout::Rgb, size.0 as int, size.1 as int));
    }
}

fn png_row_error(exact: bool, message: String) -> (error: PngRowError)
    ensures
        match error {
            PngRowError::ExactOriginal(text) => exact && text == message,
            PngRowError::FallbackAllowed(text) => !exact && text == message,
        },
{
    if exact {
        PngRowError::ExactOriginal(message)
    } else {
        PngRowError::FallbackAllowed(message)
    }
}

impl PngRowResult {
    /// Whether the page, where there is one, is sound and was prepared for the target.
    pub open spec fn is_sound(self, target_long_edge: u32) -> bool {
        let target = crate::worker::api::clamped_target(target_long_edge);
        match self {
            PngRowResult::ExactOriginal(page) => page@.sound() && page@.target_long_edge == target,
            PngRowResult::Sampled(page) => page@.sound() && page@.target_long_edge == target,
            PngRowResult::Unsupported => true,
        }
    }
}

/// Prepares a file row by row, where that serves: see `png_page`.
pub fn prepare_image_with_png_rows_for_mode(
    bytes: &[u8],
    target_long_edge: u32,
    sampling: bool,
) -> (result: Result<PngRowResult, PngRowError>)
    ensures
        row_outcome(result) == png_page(bytes@, target_long_edge, sampling),
        result matches Ok(result) ==> result.is_sound(target_long_edge),
{
    if !is_png(bytes) {
        return Ok(PngRowResult::Unsupported);
    }
    let target: u32 = clamp_target_long_edge(target_long_edge);
    let mut rows: PngRows = match open_png(vstd::slice::slice_to_vec(bytes)) {
        Ok(rows) => rows,
        Err(message) => {
            return Err(PngRowError::FallbackAllowed(message));
        },
    };
    let head = read_png_head(&rows);
    if head.interlaced || head.animated {
        return Ok(PngRowResult::Unsupported);
    }
    if let Err(message) = reject_oversized_dimensions(head.width, head.height) {
        return Err(PngRowError::FallbackAllowed(message));
    }
    let (display_width, display_height) = match display_dimensions(
        head.width,
        head.height,
        target,
    ) {
        Ok(size) => size,
        Err(message) => {
            return Err(PngRowError::FallbackAllowed(message));
        },
    };
    let longest: u32 = if head.width > head.height {
        head.width
    } else {
        head.height
    };
    let exact = target > MAX_TARGET_LONG_EDGE && display_width == head.width && display_height
        == head.height;
    let sampled = sampling && longest >= target * PNG_SAMPLED_MIN_RATIO;
    if !exact && !sampled {
        return Ok(PngRowResult::Unsupported);
    }
    if exact {
        if let Err(message) = reject_oversized_original(head.width, head.height) {
            return Err(PngRowError::ExactOriginal(message));
        }
    }
    if !head.eight_bit {
        return Ok(PngRowResult::Unsupported);
    }
    let layout: PixelLayout = match head.layout {
        Some(layout) => layout,
        None => {
            return Err(
                PngRowError::FallbackAllowed("Indexed PNG was not expanded to RGB".to_owned()),
            );
        },
    };
    let line_size: usize = match head.line_size {
        Some(size) => size,
        None => {
            return Err(
                png_row_error(exact, "PNG output row size exceeds platform limits".to_owned()),
            );
        },
    };
    proof {
        crate::worker::prepare::display_size_fits_the_target(head.width, head.height, target, false);
    }
    let raw: Vec<u8> = match sample_png_rows(
        &mut rows,
        head,
        layout,
        line_size,
        display_width,
        display_height,
    ) {
        Ok(raw) => raw,
        Err(message) => {
            return Err(png_row_error(exact, message));
        },
    };
    let backend = if exact {
        DecodeBackend::PngExactRows
    } else {
        DecodeBackend::PngSampled
    };
    let prepared = if matches!(layout, PixelLayout::Luma) {
        prepared_page_from_luma(
            raw,
            head.width,
            head.height,
            display_width,
            display_height,
            target,
            backend,
        )
    } else {
        prepared_page_from_rgba(
            raw,
            head.width,
            head.height,
            display_width,
            display_height,
            target,
            backend,
        )
    };
    match prepared {
        Ok(page) => if exact {
            Ok(PngRowResult::ExactOriginal(page))
        } else {
            Ok(PngRowResult::Sampled(page))
        },
        Err(message) => Err(png_row_error(exact, message)),
    }
}

/// Prepares a file row by row, whole or sampled.
pub fn prepare_image_with_png_rows(bytes: &[u8], target_long_edge: u32) -> (result: Result<
    PngRowResult,
    PngRowError,
>)
    ensures
        row_outcome(result) == png_page(bytes@, target_long_edge, true),
        result matches Ok(result) ==> result.is_sound(target_long_edge),
{
    prepare_image_with_png_rows_for_mode(bytes, target_long_edge, true)
}

/// Prepares an original kept for inspection; nothing where the target is a display size.
pub fn prepare_exact_original_with_png_rows(bytes: &[u8], target_long_edge: u32) -> (result: Result<
    Option<PreparedPage>,
    PngRowError,
>)
    ensures
        match result {
            Ok(Some(page)) => png_page(bytes@, target_long_edge, false) == Ok::<
                PngRowView,
                PngErrorView,
            >(PngRowView::ExactOriginal(page@)),
            Ok(None) => png_page(bytes@, target_long_edge, false) matches Ok(view)
                && !(view is ExactOriginal),
            Err(PngRowError::ExactOriginal(message)) => png_page(bytes@, target_long_edge, false)
                == Err::<PngRowView, PngErrorView>(PngErrorView::ExactOriginal(message@)),
            Err(PngRowError::FallbackAllowed(message)) => png_page(bytes@, target_long_edge, false)
                == Err::<PngRowView, PngErrorView>(PngErrorView::FallbackAllowed(message@)),
        },
        result matches Ok(Some(page)) ==> page@.sound() && page@.target_long_edge
            == crate::worker::api::clamped_target(target_long_edge),
{
    match prepare_image_with_png_rows_for_mode(bytes, target_long_edge, false)? {
        PngRowResult::ExactOriginal(page) => Ok(Some(page)),
        PngRowResult::Unsupported => Ok(None),
        PngRowResult::Sampled(_) => Ok(None),
    }
}

/// A rectangle of an original, in its own pixels.
#[derive(Debug, Clone, Copy, PartialEq, Eq, Structural)]
pub struct PngRegion {
    pub x: u32,
    pub y: u32,
    pub width: u32,
    pub height: u32,
}

/// The pixels of such a rectangle.
#[derive(Clone)]
pub struct PngRegionImage {
    pub rgba: Arc<[u8]>,
    pub original_width: u32,
    pub original_height: u32,
    pub region: PngRegion,
    pub byte_size: usize,
    pub decode_backend: DecodeBackend,
}

/// The message for a rectangle that is not inside the image.
pub open spec fn region_message(region: PngRegion, width: u32, height: u32) -> Seq<char> {
    "PNG original region PngRegion { x: "@ + text::decimal(region.x as int) + ", y: "@
        + text::decimal(region.y as int) + ", width: "@ + text::decimal(region.width as int)
        + ", height: "@ + text::decimal(region.height as int) + " } is outside image bounds "@
        + text::decimal(width as int) + "x"@ + text::decimal(height as int)
}

/// Why a rectangle cannot be taken from an image, if it cannot.
pub open spec fn region_rejection(region: PngRegion, width: u32, height: u32) -> Option<Seq<char>> {
    if region.width == 0 || region.height == 0 {
        Some("PNG original region must be non-empty"@)
    } else if region.x + region.width > u32::MAX {
        Some("PNG original region width overflows image bounds"@)
    } else if region.y + region.height > u32::MAX {
        Some("PNG original region height overflows image bounds"@)
    } else if region.x + region.width > width || region.y + region.height > height {
        Some(region_message(region, width, height))
    } else {
        None
    }
}

/// A rectangle can be taken where it has pixels and all of them are the image's.
pub proof fn regions_are_taken_from_inside(region: PngRegion, width: u32, height: u32)
    ensures
        region_rejection(region, width, height) is None <==> {
            &&& 0 < region.width && region.x + region.width <= width
            &&& 0 < region.height && region.y + region.height <= height
        },
{
}

pub fn validate_png_region(region: PngRegion, source_width: u32, source_height: u32) -> (result:
    Result<(), String>)
    ensures
        match result {
            Ok(_) => region_rejection(region, source_width, source_height) is None,
            Err(message) => region_rejection(region, source_width, source_height) == Some(message@),
        },
{
    if region.width == 0 || region.height == 0 {
        return Err("PNG original region must be non-empty".to_owned());
    }
    let right: u32 = match region.x.checked_add(region.width) {
        Some(right) => right,
        None => {
            return Err("PNG original region width overflows image bounds".to_owned());
        },
    };
    let bottom: u32 = match region.y.checked_add(region.height) {
        Some(bottom) => bottom,
        None => {
            return Err("PNG original region height overflows image bounds".to_owned());
        },
    };
    if right > source_width || bottom > source_height {
        let mut message = "PNG original region PngRegion { x: ".to_owned();
        text::push_decimal(&mut message, region.x as u64);
        message.append(", y: ");
        text::push_decimal(&mut message, region.y as u64);
        message.append(", width: ");
        text::push_decimal(&mut message, region.width as u64);
        message.append(", height: ");
        text::push_decimal(&mut message, region.height as u64);
        message.append(" } is outside image bounds ");
        text::push_decimal(&mut message, source_width as u64);
        message.append("x");
        text::push_decimal(&mut message, source_height as u64);
        return Err(message);
    }
    Ok(())
}

/// A rectangle of a file's picture as RGBA.
pub open spec fn png_region_pixels(bytes: Seq<u8>, layout: PixelLayout, region: PngRegion) -> Seq<
    u8,
> {
    pixels::raster(
        region.width as int,
        region.height as int,
        4,
        |x: int, y: int, c: int| png_channel(bytes, layout, region.x + x, region.y + y, c),
    )
}

/// A rectangle's pixel shows the file's pixel as far to the right and down from the rectangle's
/// corner.
pub proof fn region_pixels_are_the_files(
    bytes: Seq<u8>,
    layout: PixelLayout,
    region: PngRegion,
    x: int,
    y: int,
    row: Seq<u8>,
)
    requires
        0 <= x < region.width,
        0 <= y < region.height,
        png_row(bytes, region.y + y) == Ok::<Option<Seq<u8>>, Seq<char>>(Some(row)),
    ensures
        ({
            let rgba = png_region_pixels(bytes, layout, region);
            let k = 4 * (y * region.width + x);
            &&& rgba.len() == 4 * (region.width * region.height)
            &&& 0 <= k && k + 3 < rgba.len()
            &&& pixels::shows_sample(rgba, k, layout, row, region.x + x)
        }),
{
    let (w, h) = (region.width as int, region.height as int);
    let channel = |x: int, y: int, c: int|
        png_channel(bytes, layout, region.x + x, region.y + y, c);
    let rgba = png_region_pixels(bytes, layout, region);
    assert(rgba =~= pixels::raster(w, h, 4, channel));
    let k = 4 * (y * w + x);
    pixels::lemma_raster_index(w, h, 4, x, y, 3);
    pixels::lemma_raster_index(w, h, 4, x, y, 0);
    assert forall|c: int| 0 <= c < 4 implies #[trigger] rgba[k + c] == layout.channel(
        row,
        (region.x + x) * layout.width(),
        c,
    ) by {
        pixels::lemma_raster_at(w, h, 4, channel, x, y, c);
    }
    pixels::channels_show_their_sample(rgba, k, layout, row, region.x + x);
}

/// What becomes of a rectangle of a file: its size and pixels, nothing where the rows cannot be
/// read one by one, or the message why not.
pub open spec fn png_region(bytes: Seq<u8>, region: PngRegion) -> Result<
    Option<(u32, u32, Seq<u8>)>,
    Seq<char>,
> {
    match png_head(bytes) {
        _ if !has_png_signature(bytes) => Ok(None),
        Err(message) => Err(message),
        Ok(head) => {
            let outside = region_rejection(region, head.width, head.height);
            let too_large = crate::worker::prepare::original_rejection(region.width, region.height);
            if head.interlaced || head.animated {
                Ok(None)
            } else if !crate::worker::prepare::within_dimensions(head.width, head.height) {
                Err(crate::worker::prepare::dimensions_message(head.width, head.height))
            } else if outside is Some {
                Err(outside->0)
            } else if too_large is Some {
                Err(too_large->0)
            } else if !head.eight_bit {
                Ok(None)
            } else {
                match (head.layout, head.line_size) {
                    (None, _) => Err("Indexed PNG was not expanded to RGB"@),
                    (_, None) => Err("PNG output row size exceeds platform limits"@),
                    (Some(layout), Some(_)) => match rows_failure(
                        bytes,
                        0,
                        region.y + region.height,
                        "PNG ended before the requested region was decoded"@,
                    ) {
                        Some(message) => Err(message),
                        None => Ok(
                            Some(
                                (
                                    head.width,
                                    head.height,
                                    png_region_pixels(bytes, layout, region),
                                ),
                            ),
                        ),
                    },
                }
            }
        },
    }
}

/// Reads the rows up to the end of a rectangle and keeps its pixels.
fn copy_png_region_rows(
    rows: &mut PngRows,
    head: PngHead,
    layout: PixelLayout,
    line_size: usize,
    region: PngRegion,
) -> (raw: Result<Vec<u8>, String>)
    requires
        png_position(*old(rows)).1 == 0,
        png_head(png_position(*old(rows)).0) == Ok::<PngHead, Seq<char>>(head),
        head.layout == Some(layout),
        head.line_size == Some(line_size),
        line_size == layout.width() * head.width,
        0 < head.width <= 20_000,
        0 < head.height <= 20_000,
        region_rejection(region, head.width, head.height) is None,
    ensures
        match raw {
            Ok(raw) => rows_failure(
                png_position(*old(rows)).0,
                0,
                region.y + region.height,
                "PNG ended before the requested region was decoded"@,
            ) is None && raw@ == png_region_pixels(png_position(*old(rows)).0, layout, region),
            Err(message) => rows_failure(
                png_position(*old(rows)).0,
                0,
                region.y + region.height,
                "PNG ended before the requested region was decoded"@,
            ) == Some(message@),
        },
{
    let ghost bytes = png_position(*old(rows)).0;
    let ghost ended = "PNG ended before the requested region was decoded"@;
    let width: usize = region.width as usize;
    let first: usize = region.y as usize;
    let end: usize = first + region.height as usize;
    let mut columns: Vec<usize> = Vec::new();
    let mut x: usize = 0;
    while x < width
        invariant
            x <= width,
            width == region.width,
            region.x + region.width <= 20_000,
            columns@.len() == x,
            forall|i: int| 0 <= i < x ==> #[trigger] columns@[i] == region.x + i,
        decreases width - x,
    {
        columns.push(region.x as usize + x);
        x = x + 1;
    }
    let ghost channel = |x: int, y: int, c: int|
        png_channel(bytes, layout, region.x + x, region.y + y, c);
    let ghost whole = pixels::raster(width as int, region.height as int, 4, channel);
    let mut raw: Vec<u8> = Vec::new();
    proof {
        assert(whole.take(0) =~= Seq::<u8>::empty());
        assert((0 * width) * 4 == 0) by (nonlinear_arith);
        assert forall|i: int| 0 <= i < width implies (#[trigger] columns@[i] + 1) * layout.width()
            <= line_size by {
            assert((columns@[i] + 1) * layout.width() <= layout.width() * head.width)
                by (nonlinear_arith)
                requires
                    columns@[i] + 1 <= head.width,
                    layout.width() >= 0,
            ;
        }
    }
    let mut source_y: usize = 0;
    while source_y < end
        invariant
            source_y <= end,
            first == region.y,
            end == region.y + region.height,
            width == region.width,
            columns@.len() == width,
            forall|i: int| 0 <= i < width ==> #[trigger] columns@[i] == region.x + i,
            forall|i: int|
                0 <= i < width ==> (#[trigger] columns@[i] + 1) * layout.width() <= line_size,
            bytes == png_position(*old(rows)).0,
            png_position(*rows) == (bytes, source_y as int),
            png_head(bytes) == Ok::<PngHead, Seq<char>>(head),
            head.layout == Some(layout),
            head.line_size == Some(line_size),
            ended == "PNG ended before the requested region was decoded"@,
            rows_failure(bytes, 0, end as int, ended) == rows_failure(
                bytes,
                source_y as int,
                end as int,
                ended,
            ),
            channel == (|x: int, y: int, c: int|
                png_channel(bytes, layout, region.x + x, region.y + y, c)),
            whole == pixels::raster(width as int, region.height as int, 4, channel),
            raw@ == whole.take(
                if source_y < first {
                    0
                } else {
                    ((source_y - first) * width) * 4
                },
            ),
        decreases end - source_y,
    {
        let row: Vec<u8> = match read_png_row(rows, line_size)? {
            Some(row) => row,
            None => {
                return Err("PNG ended before the requested region was decoded".to_owned());
            },
        };
        assert(row_of(bytes, source_y as int) == row@);
        assert((0 * width) * 4 == 0) by (nonlinear_arith);
        if source_y >= first {
            push_row(
                &mut raw,
                layout,
                4,
                &row,
                &columns,
                Ghost(channel),
                Ghost(region.height as int),
                Ghost(source_y - first),
            );
        }
        source_y = source_y + 1;
    }
    proof {
        assert((region.height * width) * 4 == width * region.height * 4) by (nonlinear_arith);
        assert(whole.take(width * region.height * 4) =~= whole);
    }
    Ok(raw)
}

/// Prepares a rectangle of an original without decoding what lies below it.
pub fn prepare_exact_original_region_with_png_rows(bytes: &[u8], region: PngRegion) -> (result:
    Result<Option<PngRegionImage>, PngRowError>)
    ensures
        match result {
            Ok(Some(image)) => png_region(bytes@, region) == Ok::<
                Option<(u32, u32, Seq<u8>)>,
                Seq<char>,
            >(Some((image.original_width, image.original_height, image.rgba@))) && image.region
                == region && image.byte_size == image.rgba@.len() && image.decode_backend
                == DecodeBackend::PngExactRows,
            Ok(None) => png_region(bytes@, region) == Ok::<
                Option<(u32, u32, Seq<u8>)>,
                Seq<char>,
            >(None),
            Err(PngRowError::ExactOriginal(message)) => png_region(bytes@, region) == Err::<
                Option<(u32, u32, Seq<u8>)>,
                Seq<char>,
            >(message@),
            Err(PngRowError::FallbackAllowed(_)) => false,
        },
{
    if !is_png(bytes) {
        return Ok(None);
    }
    let mut rows: PngRows = match open_png(vstd::slice::slice_to_vec(bytes)) {
        Ok(rows) => rows,
        Err(message) => {
            return Err(PngRowError::ExactOriginal(message));
        },
    };
    let head = read_png_head(&rows);
    if head.interlaced || head.animated {
        return Ok(None);
    }
    if let Err(message) = reject_oversized_dimensions(head.width, head.height) {
        return Err(PngRowError::ExactOriginal(message));
    }
    if let Err(message) = validate_png_region(region, head.width, head.height) {
        return Err(PngRowError::ExactOriginal(message));
    }
    if let Err(message) = reject_oversized_original(region.width, region.height) {
        return Err(PngRowError::ExactOriginal(message));
    }
    if !head.eight_bit {
        return Ok(None);
    }
    let layout: PixelLayout = match head.layout {
        Some(layout) => layout,
        None => {
            return Err(
                PngRowError::ExactOriginal("Indexed PNG was not expanded to RGB".to_owned()),
            );
        },
    };
    let line_size: usize = match head.line_size {
        Some(size) => size,
        None => {
            return Err(
                PngRowError::ExactOriginal(
                    "PNG output row size exceeds platform limits".to_owned(),
                ),
            );
        },
    };
    match copy_png_region_rows(&mut rows, head, layout, line_size, region) {
        Ok(raw) => {
            let byte_size: usize = raw.len();
            Ok(
                Some(
                    PngRegionImage {
                        rgba: shared_bytes(raw),
                        original_width: head.width,
                        original_height: head.height,
                        region,
                        byte_size,
                        decode_backend: DecodeBackend::PngExactRows,
                    },
                ),
            )
        },
        Err(message) => Err(PngRowError::ExactOriginal(message)),
    }
}

/// The rows of a file are read one by one where it stands still, is not interlaced and has eight bits per
/// sample, and is at least twice as long as the target on one side. Where it is not as long as that, they
/// are read only for an original that is kept whole.
pub proof fn large_png_files_are_sampled(bytes: Seq<u8>, target_long_edge: u32, head: PngHead)
    requires
        has_png_signature(bytes),
        png_head(bytes) == Ok::<PngHead, Seq<char>>(head),
        0 < head.width <= 20_000 && 0 < head.height <= 20_000,
        1024 <= target_long_edge <= 4096,
    ensures
        png_page(bytes, target_long_edge, true) == Ok::<PngRowView, PngErrorView>(
            PngRowView::Unsupported,
        ) <==> {
            ||| head.width < 2 * target_long_edge && head.height < 2 * target_long_edge
            ||| head.interlaced || head.animated || !head.eight_bit
        },
        png_page(bytes, target_long_edge, false) == Ok::<PngRowView, PngErrorView>(
            PngRowView::Unsupported,
        ),
{
}

} // verus!
