//! GIF files: the first frame, sampled where it is much larger than the target.
use crate::worker::api::{clamp_target_long_edge, DecodeBackend, PageView, PreparedPage};
use crate::worker::pixels;
use crate::worker::prepare::{
    display_dimensions, prepared_page_from_rgba, reject_oversized_original, sampled_index_map,
};
use vstd::prelude::*;

verus! {

/// How many times larger than the target an image is at least where it is sampled.
pub const GIF_SAMPLED_MIN_RATIO: u32 = 2;

/// The first bytes of a GIF file: "GIF87a" or "GIF89a".
pub open spec fn has_gif_signature(bytes: Seq<u8>) -> bool {
    bytes.len() >= 6 && bytes[0] == 0x47 && bytes[1] == 0x49 && bytes[2] == 0x46 && bytes[3] == 0x38
        && (bytes[4] == 0x37 || bytes[4] == 0x39) && bytes[5] == 0x61
}

pub fn is_gif(bytes: &[u8]) -> (gif: bool)
    ensures
        gif == has_gif_signature(bytes@),
{
    bytes.len() >= 6 && bytes[0] == 0x47 && bytes[1] == 0x49 && bytes[2] == 0x46 && bytes[3] == 0x38
        && (bytes[4] == 0x37 || bytes[4] == 0x39) && bytes[5] == 0x61
}

/// The screen of a GIF file.
pub struct GifScreen {
    pub width: u16,
    pub height: u16,
    pub palette: Option<Vec<u8>>,
}

/// A screen as plain data.
pub struct GifScreenView {
    pub width: u16,
    pub height: u16,
    pub palette: Option<Seq<u8>>,
}

impl View for GifScreen {
    type V = GifScreenView;

    open spec fn view(&self) -> GifScreenView {
        GifScreenView {
            width: self.width,
            height: self.height,
            palette: pixels::optional_bytes(self.palette),
        }
    }
}

/// A frame of a GIF file: palette indices, or RGBA pixels.
pub struct GifFrame {
    pub left: u16,
    pub top: u16,
    pub width: u16,
    pub height: u16,
    pub transparent: Option<u8>,
    pub palette: Option<Vec<u8>>,
    pub buffer: Vec<u8>,
}

/// A frame as plain data.
pub struct GifFrameView {
    pub left: u16,
    pub top: u16,
    pub width: u16,
    pub height: u16,
    pub transparent: Option<u8>,
    pub palette: Option<Seq<u8>>,
    pub buffer: Seq<u8>,
}

impl View for GifFrame {
    type V = GifFrameView;

    open spec fn view(&self) -> GifFrameView {
        GifFrameView {
            left: self.left,
            top: self.top,
            width: self.width,
            height: self.height,
            transparent: self.transparent,
            palette: pixels::optional_bytes(self.palette),
            buffer: self.buffer@,
        }
    }
}

/// What `gif::DecodeOptions::read_info` reads of a file's screen.
pub uninterp spec fn gif_screen(bytes: Seq<u8>) -> Result<GifScreenView, Seq<char>>;

/// What `gif::Decoder::read_next_frame` makes of a file's first frame, as indices or as RGBA.
pub uninterp spec fn gif_frame(bytes: Seq<u8>, rgba: bool) -> Result<
    Option<GifFrameView>,
    Seq<char>,
>;

/// `gif::DecodeOptions::read_info`, then the decoder's `width`, `height` and `global_palette`.
#[verifier::external_body]
pub(crate) fn read_gif_screen(bytes: &[u8]) -> (screen: Result<GifScreen, String>)
    ensures
        match screen {
            Ok(screen) => gif_screen(bytes@) == Ok::<GifScreenView, Seq<char>>(screen@),
            Err(message) => gif_screen(bytes@) == Err::<GifScreenView, Seq<char>>(message@),
        },
{
    let reader = gif::DecodeOptions::new().read_info(std::io::Cursor::new(bytes)).map_err(|error| error.to_string())?;
    Ok(GifScreen {
        width: reader.width(),
        height: reader.height(),
        palette: reader.global_palette().map(|palette| palette.to_vec()),
    })
}

/// `gif::Decoder::read_next_frame` on a file's first frame, as indices or as RGBA.
#[verifier::external_body]
pub(crate) fn read_gif_frame(bytes: &[u8], rgba: bool) -> (frame: Result<Option<GifFrame>, String>)
    ensures
        match frame {
            Ok(Some(frame)) => gif_frame(bytes@, rgba) == Ok::<Option<GifFrameView>, Seq<char>>(
                Some(frame@),
            ),
            Ok(None) => gif_frame(bytes@, rgba) == Ok::<Option<GifFrameView>, Seq<char>>(None),
            Err(message) => gif_frame(bytes@, rgba) == Err::<Option<GifFrameView>, Seq<char>>(
                message@,
            ),
        },
{
    let mut options = gif::DecodeOptions::new();
    options.set_color_output(if rgba { gif::ColorOutput::RGBA } else { gif::ColorOutput::Indexed });
    let mut reader = options.read_info(std::io::Cursor::new(bytes)).map_err(|error| error.to_string())?;
    let found = reader.read_next_frame().map_err(|error| error.to_string())?;
    Ok(found.map(|frame| GifFrame {
        left: frame.left,
        top: frame.top,
        width: frame.width,
        height: frame.height,
        transparent: frame.transparent,
        palette: frame.palette.clone(),
        buffer: frame.buffer.to_vec(),
    }))
}

/// The RGBA channel `c` of the pixel at `x`, `y` of an indexed picture. The transparent index is
/// fully transparent.
pub open spec fn indexed_channel(
    indices: Seq<u8>,
    palette: Seq<u8>,
    transparent: Option<u8>,
    width: int,
    x: int,
    y: int,
    c: int,
) -> u8 {
    let index = indices[y * width + x];
    if c < 3 {
        palette[3 * index + c]
    } else if transparent == Some(index) {
        0
    } else {
        255
    }
}

/// Whether the palette holds the color of the pixel at `x`, `y`.
pub open spec fn has_color(indices: Seq<u8>, palette: Seq<u8>, width: int, x: int, y: int) -> bool {
    3 * indices[y * width + x] + 3 <= palette.len()
}

/// Whether the palette holds the color of the `k`th pixel of the picture sampled at `display`.
pub open spec fn sampled_color_known(
    indices: Seq<u8>,
    palette: Seq<u8>,
    size: (u32, u32),
    display: (u32, u32),
    k: int,
) -> bool {
    has_color(
        indices,
        palette,
        size.0 as int,
        crate::worker::prepare::sampled_source(
            k % display.0 as int,
            display.0 as int,
            size.0 as int,
        ),
        crate::worker::prepare::sampled_source(
            k / display.0 as int,
            display.1 as int,
            size.1 as int,
        ),
    )
}

/// An indexed picture sampled at `display`, as RGBA pixels.
pub open spec fn sampled_indexed(
    indices: Seq<u8>,
    palette: Seq<u8>,
    transparent: Option<u8>,
    size: (u32, u32),
    display: (u32, u32),
) -> Result<Seq<u8>, Seq<char>> {
    if indices.len() != size.0 * size.1 {
        Err("GIF frame buffer did not match dimensions"@)
    } else if exists|k: int|
        0 <= k < display.0 * display.1 && !(#[trigger] sampled_color_known(
            indices,
            palette,
            size,
            display,
            k,
        )) {
        Err("GIF frame referenced a missing palette entry"@)
    } else {
        Ok(
            pixels::raster(
                display.0 as int,
                display.1 as int,
                4,
                |x: int, y: int, c: int|
                    indexed_channel(
                        indices,
                        palette,
                        transparent,
                        size.0 as int,
                        crate::worker::prepare::sampled_source(x, display.0 as int, size.0 as int),
                        crate::worker::prepare::sampled_source(y, display.1 as int, size.1 as int),
                        c,
                    ),
            ),
        )
    }
}

/// A sampled pixel shows its source pixel in the palette's colors: red, green and blue are the three
/// bytes of the palette entry that the source pixel names, in that order, and the pixel is opaque
/// unless it names the transparent entry. The source pixel is the one at the middle of the part of
/// the picture that the sampled pixel covers.
pub proof fn sampled_gif_pixels_are_palette_colors(
    indices: Seq<u8>,
    palette: Seq<u8>,
    transparent: Option<u8>,
    size: (u32, u32),
    display: (u32, u32),
    at: (int, int),
    from: (int, int),
)
    requires
        size.0 > 0 && size.1 > 0,
        0 <= at.0 < display.0,
        0 <= at.1 < display.1,
        2 * display.0 * from.0 <= (2 * at.0 + 1) * size.0 < 2 * display.0 * (from.0 + 1),
        2 * display.1 * from.1 <= (2 * at.1 + 1) * size.1 < 2 * display.1 * (from.1 + 1),
    ensures
        0 <= from.0 < size.0 && 0 <= from.1 < size.1,
        sampled_indexed(indices, palette, transparent, size, display) matches Ok(rgba) ==> {
            let entry = indices[from.1 * size.0 + from.0];
            let k = 4 * (at.1 * display.0 + at.0);
            &&& indices.len() == size.0 * size.1
            &&& rgba.len() == 4 * (display.0 * display.1)
            &&& 0 <= k && k + 3 < rgba.len()
            &&& 3 * entry + 2 < palette.len()
            &&& rgba[k] == palette[3 * entry]
            &&& rgba[k + 1] == palette[3 * entry + 1]
            &&& rgba[k + 2] == palette[3 * entry + 2]
            &&& transparent == Some(entry) ==> rgba[k + 3] == 0
            &&& transparent != Some(entry) ==> rgba[k + 3] == 255
        },
{
    let (dw, dh) = (display.0 as int, display.1 as int);
    crate::worker::prepare::sampled_source_holds_the_middle(at.0, dw, size.0 as int, from.0);
    crate::worker::prepare::sampled_source_holds_the_middle(at.1, dh, size.1 as int, from.1);
    crate::worker::prepare::sampled_source_stays_inside(at.0, at.0, dw, size.0 as int);
    crate::worker::prepare::sampled_source_stays_inside(at.1, at.1, dh, size.1 as int);
    if let Ok(rgba) = sampled_indexed(indices, palette, transparent, size, display) {
        let channel = |x: int, y: int, c: int|
            indexed_channel(
                indices,
                palette,
                transparent,
                size.0 as int,
                crate::worker::prepare::sampled_source(x, dw, size.0 as int),
                crate::worker::prepare::sampled_source(y, dh, size.1 as int),
                c,
            );
        assert(rgba =~= pixels::raster(dw, dh, 4, channel));
        pixels::lemma_raster_at(dw, dh, 4, channel, at.0, at.1, 0);
        pixels::lemma_raster_at(dw, dh, 4, channel, at.0, at.1, 1);
        pixels::lemma_raster_at(dw, dh, 4, channel, at.0, at.1, 2);
        pixels::lemma_raster_at(dw, dh, 4, channel, at.0, at.1, 3);
        let k = at.1 * dw + at.0;
        pixels::lemma_raster_index(dw, dh, 1, at.0, at.1, 0);
        assert(sampled_color_known(indices, palette, size, display, k));
    }
}

/// An indexed picture is sampled wherever its pixels make up its size and the palette has an entry
/// for every index.
pub proof fn full_palettes_are_sampled(
    indices: Seq<u8>,
    palette: Seq<u8>,
    transparent: Option<u8>,
    size: (u32, u32),
    display: (u32, u32),
)
    requires
        size.0 > 0 && size.1 > 0,
        display.0 > 0 && display.1 > 0,
        indices.len() == size.0 * size.1,
        forall|i: int| 0 <= i < indices.len() ==> 3 * (#[trigger] indices[i]) + 3 <= palette.len(),
    ensures
        sampled_indexed(indices, palette, transparent, size, display) is Ok,
{
    assert forall|k: int| 0 <= k < display.0 * display.1 implies #[trigger] sampled_color_known(
        indices,
        palette,
        size,
        display,
        k,
    ) by {
        let (dw, dh) = (display.0 as int, display.1 as int);
        let (sw, sh) = (size.0 as int, size.1 as int);
        let x = k % dw;
        let y = k / dw;
        vstd::arithmetic::div_mod::lemma_fundamental_div_mod(k, dw);
        assert(0 <= y < dh) by (nonlinear_arith)
            requires
                k == dw * y + x,
                0 <= x < dw,
                0 <= k < dw * dh,
        ;
        crate::worker::prepare::sampled_source_stays_inside(x, x, dw, sw);
        crate::worker::prepare::sampled_source_stays_inside(y, y, dh, sh);
        let sx = crate::worker::prepare::sampled_source(x, dw, sw);
        let sy = crate::worker::prepare::sampled_source(y, dh, sh);
        pixels::lemma_raster_index(sw, sh, 1, sx, sy, 0);
        assert(0 <= sy * sw + sx < indices.len());
    }
}

/// Samples an indexed picture: see `sampled_indexed`.
pub fn sample_indexed_gif_to_rgba(
    indices: &[u8],
    palette: &[u8],
    transparent: Option<u8>,
    size: (u32, u32),
    display: (u32, u32),
) -> (rgba: Result<Vec<u8>, String>)
    requires
        0 < size.0 <= 20_000,
        0 < size.1 <= 20_000,
        0 < display.0 <= 20_000,
        0 < display.1 <= 20_000,
    ensures
        match rgba {
            Ok(rgba) => sampled_indexed(indices@, palette@, transparent, size, display) == Ok::<
                Seq<u8>,
                Seq<char>,
            >(rgba@),
            Err(message) => sampled_indexed(indices@, palette@, transparent, size, display)
                == Err::<Seq<u8>, Seq<char>>(message@),
        },
{
    let source_width: usize = size.0 as usize;
    let source_height: usize = size.1 as usize;
    let width: usize = display.0 as usize;
    let height: usize = display.1 as usize;
    proof {
        assert(source_width * source_height <= 400_000_000 && 2 * width * source_width
            <= 800_000_000 && 2 * height * source_height <= 800_000_000) by (nonlinear_arith)
            requires
                source_width <= 20_000,
                source_height <= 20_000,
                width <= 20_000,
                height <= 20_000,
        ;
    }
    if indices.len() != source_width * source_height {
        return Err("GIF frame buffer did not match dimensions".to_owned());
    }
    let columns = sampled_index_map(width, source_width);
    let rows = sampled_index_map(height, source_height);
    let ghost channel = |x: int, y: int, c: int|
        indexed_channel(
            indices@,
            palette@,
            transparent,
            size.0 as int,
            crate::worker::prepare::sampled_source(x, display.0 as int, size.0 as int),
            crate::worker::prepare::sampled_source(y, display.1 as int, size.1 as int),
            c,
        );
    let ghost whole = pixels::raster(width as int, height as int, 4, channel);
    let mut rgba: Vec<u8> = Vec::new();
    let mut y: usize = 0;
    assert(whole.take(0) =~= Seq::<u8>::empty());
    while y < height
        invariant
            y <= height,
            width == display.0,
            height == display.1,
            source_width == size.0,
            source_height == size.1,
            0 < width,
            0 < size.0 <= 20_000,
            0 < size.1 <= 20_000,
            columns@.len() == width,
            rows@.len() == height,
            indices@.len() == source_width * source_height,
            palette.len() == palette@.len(),
            channel == (|x: int, y: int, c: int|
                indexed_channel(
                    indices@,
                    palette@,
                    transparent,
                    size.0 as int,
                    crate::worker::prepare::sampled_source(x, display.0 as int, size.0 as int),
                    crate::worker::prepare::sampled_source(y, display.1 as int, size.1 as int),
                    c,
                )),
            whole == pixels::raster(width as int, height as int, 4, channel),
            forall|i: int|
                0 <= i < width ==> #[trigger] columns@[i] == crate::worker::prepare::sampled_source(
                    i,
                    width as int,
                    source_width as int,
                ) && columns@[i] < source_width,
            forall|i: int|
                0 <= i < height ==> #[trigger] rows@[i] == crate::worker::prepare::sampled_source(
                    i,
                    height as int,
                    source_height as int,
                ) && rows@[i] < source_height,
            forall|k: int|
                0 <= k < y * width ==> #[trigger] sampled_color_known(
                    indices@,
                    palette@,
                    size,
                    display,
                    k,
                ),
            rgba@ == whole.take((y * width) * 4),
        decreases height - y,
    {
        let source_y: usize = rows[y];
        let mut x: usize = 0;
        assert(y * width + 0 == y * width);
        while x < width
            invariant
                x <= width,
                y < height,
                width == display.0,
                height == display.1,
                source_width == size.0,
                source_height == size.1,
                0 < width,
                0 < size.0 <= 20_000,
                0 < size.1 <= 20_000,
                columns@.len() == width,
                indices@.len() == source_width * source_height,
                palette.len() == palette@.len(),
                channel == (|x: int, y: int, c: int|
                    indexed_channel(
                        indices@,
                        palette@,
                        transparent,
                        size.0 as int,
                        crate::worker::prepare::sampled_source(x, display.0 as int, size.0 as int),
                        crate::worker::prepare::sampled_source(y, display.1 as int, size.1 as int),
                        c,
                    )),
                whole == pixels::raster(width as int, height as int, 4, channel),
                forall|i: int|
                    0 <= i < width ==> #[trigger] columns@[i]
                        == crate::worker::prepare::sampled_source(
                        i,
                        width as int,
                        source_width as int,
                    ) && columns@[i] < source_width,
                source_y == crate::worker::prepare::sampled_source(
                    y as int,
                    height as int,
                    source_height as int,
                ),
                source_y < source_height,
                forall|k: int|
                    0 <= k < y * width + x ==> #[trigger] sampled_color_known(
                        indices@,
                        palette@,
                        size,
                        display,
                        k,
                    ),
                rgba@ == whole.take((y * width + x) * 4),
            decreases width - x,
        {
            let source_x: usize = columns[x];
            proof {
                assert(source_y * source_width + source_x < source_width * source_height
                    && source_y * source_width <= 400_000_000) by (nonlinear_arith)
                    requires
                        source_y < source_height <= 20_000,
                        source_x < source_width <= 20_000,
                ;
                vstd::arithmetic::div_mod::lemma_fundamental_div_mod_converse(
                    y * width + x,
                    width as int,
                    y as int,
                    x as int,
                );
                assert(y * width + x < width * height) by (nonlinear_arith)
                    requires
                        y < height,
                        x < width,
                ;
            }
            let index: u8 = indices[source_y * source_width + source_x];
            let offset: usize = index as usize * 3;
            if palette.len() < offset + 3 {
                assert(!sampled_color_known(indices@, palette@, size, display, y * width + x));
                return Err("GIF frame referenced a missing palette entry".to_owned());
            }
            assert(sampled_color_known(indices@, palette@, size, display, y * width + x));
            let clear = match transparent {
                Some(entry) => entry == index,
                None => false,
            };
            let alpha: u8 = if clear {
                0
            } else {
                255
            };
            rgba.push(palette[offset]);
            rgba.push(palette[offset + 1]);
            rgba.push(palette[offset + 2]);
            rgba.push(alpha);
            proof {
                let part = whole.take((y * width + x) * 4);
                let pixel = seq![
                    palette@[offset as int],
                    palette@[offset + 1],
                    palette@[offset + 2],
                    alpha,
                ];
                pixels::lemma_raster_extend(
                    width as int,
                    height as int,
                    4,
                    channel,
                    x as int,
                    y as int,
                    part,
                    pixel,
                );
                assert(rgba@ =~= part + pixel);
            }
            x = x + 1;
        }
        assert((y + 1) * width == y * width + width) by (nonlinear_arith);
        y = y + 1;
    }
    assert(height * width == width * height) by (nonlinear_arith);
    assert(whole.take(height * width * 4) =~= whole);
    Ok(rgba)
}

/// What becomes of the first frame of a file that is much larger than the target: nothing unless
/// it fills the screen.
pub open spec fn sampled_gif_frame(
    frame: GifFrameView,
    screen: GifScreenView,
    target: u32,
) -> Result<Option<PageView>, Seq<char>> {
    let size = (screen.width as u32, screen.height as u32);
    let display = crate::worker::prepare::display_size(size.0, size.1, target, false);
    let palette = if frame.palette is Some {
        frame.palette
    } else {
        screen.palette
    };
    if frame.left != 0 || frame.top != 0 || frame.width != screen.width || frame.height
        != screen.height {
        Ok(None)
    } else if palette is None {
        Err("GIF frame did not include a palette"@)
    } else {
        match sampled_indexed(frame.buffer, palette->0, frame.transparent, size, display) {
            Err(message) => Err(message),
            Ok(rgba) => match crate::worker::prepare::assembled_page(
                false,
                rgba,
                size,
                display,
                target,
                DecodeBackend::GifSampled,
            ) {
                Ok(page) => Ok(Some(page)),
                Err(message) => Err(message),
            },
        }
    }
}

/// What becomes of a GIF file that is much larger than the target.
pub open spec fn sampled_gif_page(bytes: Seq<u8>, target_long_edge: u32) -> Result<
    Option<PageView>,
    Seq<char>,
> {
    let target = crate::worker::api::clamped_target(target_long_edge);
    match gif_screen(bytes) {
        _ if !has_gif_signature(bytes) => Ok(None),
        Err(message) => Err(message),
        Ok(screen) => {
            let size = (screen.width as u32, screen.height as u32);
            let too_large = crate::worker::prepare::original_rejection(size.0, size.1);
            if too_large is Some {
                Err(too_large->0)
            } else if size.0 == 0 || size.1 == 0 {
                Err("Image has zero-sized dimensions"@)
            } else if crate::worker::prepare::longest_edge(size.0, size.1) < target
                * GIF_SAMPLED_MIN_RATIO {
                Ok(None)
            } else {
                match gif_frame(bytes, false) {
                    Err(message) => Err(message),
                    Ok(None) => Ok(None),
                    Ok(Some(frame)) => sampled_gif_frame(frame, screen, target),
                }
            }
        },
    }
}

/// A sampled page shows the file's first frame: it fills the screen, its colors are those of its own
/// palette or else of the screen's, and the original's size is the screen's. Only a file at least
/// twice as large as the target is sampled.
pub proof fn sampled_gif_pages_show_the_first_frame(
    bytes: Seq<u8>,
    target_long_edge: u32,
    screen: GifScreenView,
    frame: GifFrameView,
    page: PageView,
)
    requires
        gif_screen(bytes) == Ok::<GifScreenView, Seq<char>>(screen),
        gif_frame(bytes, false) == Ok::<Option<GifFrameView>, Seq<char>>(Some(frame)),
        sampled_gif_page(bytes, target_long_edge) == Ok::<Option<PageView>, Seq<char>>(Some(page)),
    ensures
        frame.left == 0 && frame.top == 0,
        frame.width == screen.width && frame.height == screen.height,
        page.original == (screen.width as int, screen.height as int),
        screen.width >= 2 * page.target_long_edge || screen.height >= 2 * page.target_long_edge,
        page.decode_backend == DecodeBackend::GifSampled && !page.luma && page.notice is None,
        ({
            let size = (screen.width as u32, screen.height as u32);
            let display = crate::worker::prepare::display_size(
                size.0,
                size.1,
                target_long_edge,
                false,
            );
            &&& page.display == (display.0 as int, display.1 as int)
            &&& frame.palette matches Some(own) ==> sampled_indexed(
                frame.buffer,
                own,
                frame.transparent,
                size,
                display,
            ) == Ok::<Seq<u8>, Seq<char>>(page.bytes)
            &&& frame.palette is None ==> screen.palette is Some && sampled_indexed(
                frame.buffer,
                screen.palette->0,
                frame.transparent,
                size,
                display,
            ) == Ok::<Seq<u8>, Seq<char>>(page.bytes)
        }),
{
}

/// Prepares a page from a frame of palette indices: see `sampled_gif_frame`.
pub fn page_of_gif_frame(frame: &GifFrame, screen: &GifScreen, target: u32) -> (page: Result<
    Option<PreparedPage>,
    String,
>)
    requires
        0 < screen.width <= 20_000,
        0 < screen.height <= 20_000,
        crate::worker::api::clamped_target(target) == target,
    ensures
        crate::worker::api::optional_outcome(page) == sampled_gif_frame(frame@, screen@, target),
        page matches Ok(Some(page)) ==> page@.display == {
            let size = crate::worker::prepare::display_size(
                screen.width as u32,
                screen.height as u32,
                target,
                false,
            );
            (size.0 as int, size.1 as int)
        },
        page matches Ok(Some(page)) ==> page@.sound() && page@.target_long_edge == target,
{
    if frame.left != 0 || frame.top != 0 || frame.width != screen.width || frame.height
        != screen.height {
        return Ok(None);
    }
    let size: (u32, u32) = (screen.width as u32, screen.height as u32);
    let display: (u32, u32) = display_dimensions(size.0, size.1, target)?;
    proof {
        crate::worker::prepare::display_size_fits_the_target(size.0, size.1, target, false);
    }
    let palette: &Vec<u8> = match (&frame.palette, &screen.palette) {
        (Some(palette), _) => palette,
        (None, Some(palette)) => palette,
        (None, None) => {
            return Err("GIF frame did not include a palette".to_owned());
        },
    };
    let rgba = sample_indexed_gif_to_rgba(
        frame.buffer.as_slice(),
        palette.as_slice(),
        frame.transparent,
        size,
        display,
    )?;
    let page = prepared_page_from_rgba(
        rgba,
        size.0,
        size.1,
        display.0,
        display.1,
        target,
        DecodeBackend::GifSampled,
    )?;
    Ok(Some(page))
}

/// Prepares the first frame of a file that is much larger than the target without expanding all
/// of it.
pub fn prepare_image_with_sampled_gif(bytes: &[u8], target_long_edge: u32) -> (page: Result<
    Option<PreparedPage>,
    String,
>)
    ensures
        crate::worker::api::optional_outcome(page) == sampled_gif_page(bytes@, target_long_edge),
        page matches Ok(Some(page)) ==> page@.sound() && page@.target_long_edge
            == crate::worker::api::clamped_target(target_long_edge),
{
    if !is_gif(bytes) {
        return Ok(None);
    }
    let target: u32 = clamp_target_long_edge(target_long_edge);
    let screen = read_gif_screen(bytes)?;
    let width: u32 = screen.width as u32;
    let height: u32 = screen.height as u32;
    reject_oversized_original(width, height)?;
    display_dimensions(width, height, target)?;
    let longest: u32 = if width > height {
        width
    } else {
        height
    };
    if longest < target * GIF_SAMPLED_MIN_RATIO {
        return Ok(None);
    }
    match read_gif_frame(bytes, false)? {
        Some(frame) => page_of_gif_frame(&frame, &screen, target),
        None => Ok(None),
    }
}

/// A file is sampled exactly where it is at least twice as long as the target on one side and its first
/// frame fills the screen.
pub proof fn large_gif_files_are_sampled(
    bytes: Seq<u8>,
    target_long_edge: u32,
    screen: GifScreenView,
    frame: GifFrameView,
)
    requires
        has_gif_signature(bytes),
        gif_screen(bytes) == Ok::<GifScreenView, Seq<char>>(screen),
        gif_frame(bytes, false) == Ok::<Option<GifFrameView>, Seq<char>>(Some(frame)),
        0 < screen.width <= 20_000 && 0 < screen.height <= 20_000,
        4 * (screen.width * screen.height) <= 268_435_456,
        1024 <= target_long_edge <= 20_000,
    ensures
        sampled_gif_page(bytes, target_long_edge) == Ok::<Option<PageView>, Seq<char>>(None) <==> {
            ||| screen.width < 2 * target_long_edge && screen.height < 2 * target_long_edge
            ||| frame.left != 0 || frame.top != 0
            ||| frame.width != screen.width || frame.height != screen.height
        },
{
}

} // verus!
