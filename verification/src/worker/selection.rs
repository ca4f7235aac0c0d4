//! Which decoder a file is given to.
use crate::decoder_backend::{
    decode_direct, detect_format, is_webp_animated, DecodedRgba, DecodedView, DecoderFormat,
};
use crate::state::DecoderPreference;
use crate::worker::api::{
    clamp_target_long_edge, DecodeBackend, DecodeOptions, PageView, PreparedPage,
};
use crate::worker::bmp::prepare_image_with_sampled_bmp;
use crate::worker::draft::{draft_from_page, draft_page, DraftView, PageDraft};
use crate::worker::gif::prepare_image_with_sampled_gif;
use crate::worker::image_crate::prepare_image_with_image_crate;
use crate::worker::jpeg::prepare_image_with_scaled_jpeg;
use crate::worker::png::{
    prepare_exact_original_with_png_rows, prepare_image_with_png_rows_for_mode, PngErrorView,
    PngRowError, PngRowResult, PngRowView,
};
use crate::worker::prepare::{display_dimensions_with_upscale, reject_oversized_original};
use vstd::prelude::*;

verus! {

/// Whether the broad decoder makes this of a file for a request.
pub open spec fn is_broad_draft(
    bytes: Seq<u8>,
    target_long_edge: u32,
    options: DecodeOptions,
    draft: Result<DraftView, Seq<char>>,
) -> bool {
    crate::worker::image_crate::is_image_draft(
        bytes,
        target_long_edge,
        options,
        options.allow_display_upscale,
        None,
        draft,
    )
}

/// A complete page as a draft.
pub open spec fn ready_draft(page: PageView, options: DecodeOptions) -> DraftView {
    crate::worker::draft::draft_of_page(
        page,
        (page.display.0 as u32, page.display.1 as u32),
        options.cpu_downscale_filter,
    )
}

/// The draft of an RGBA picture.
pub open spec fn decoded_draft(
    decoded: DecodedView,
    target_long_edge: u32,
    options: DecodeOptions,
    backend: DecodeBackend,
) -> Result<DraftView, Seq<char>> {
    let size = (decoded.width, decoded.height);
    let target = crate::worker::api::clamped_target(target_long_edge);
    let display = crate::worker::prepare::display_size(
        size.0,
        size.1,
        target,
        options.allow_display_upscale,
    );
    let too_large = crate::worker::prepare::original_rejection(size.0, size.1);
    if too_large is Some {
        Err(too_large->0)
    } else if decoded.pixels.len() != size.0 * size.1 * 4 {
        Err("Decoded RGBA buffer did not match dimensions"@)
    } else if size.0 == 0 || size.1 == 0 {
        Err("Image has zero-sized dimensions"@)
    } else {
        crate::worker::draft::drafted(
            false,
            None,
            decoded.pixels,
            size,
            size,
            display,
            target,
            backend,
            options.scale_filter(size, display),
            None,
        )
    }
}

/// What the broad decoder made of a file that another decoder could not read, with a notice or a
/// message that says so.
pub open spec fn noticed_draft(
    draft: Result<DraftView, Seq<char>>,
    backend: DecodeBackend,
    reason: Seq<char>,
) -> Result<DraftView, Seq<char>> {
    match draft {
        Ok(draft) => Ok(
            DraftView {
                page: PageView {
                    notice: Some(
                        backend.as_str_spec() + " failed; used image fallback: "@ + reason,
                    ),
                    ..draft.page
                },
                ..draft
            },
        ),
        Err(message) => Err(
            backend.as_str_spec() + " failed: "@ + reason + "; image fallback failed: "@ + message,
        ),
    }
}

/// Whether this becomes of a file that another decoder could not read.
pub open spec fn is_fallback_draft(
    bytes: Seq<u8>,
    target_long_edge: u32,
    options: DecodeOptions,
    backend: DecodeBackend,
    reason: Seq<char>,
    draft: Result<DraftView, Seq<char>>,
) -> bool {
    exists|broad: Result<DraftView, Seq<char>>|
        #[trigger] is_broad_draft(bytes, target_long_edge, options, broad) && draft
            == noticed_draft(broad, backend, reason)
}

/// Whether a decoder made for one format, or else the broad decoder, makes this of a file.
pub open spec fn is_direct_draft(
    bytes: Seq<u8>,
    target_long_edge: u32,
    options: DecodeOptions,
    backend: DecodeBackend,
    draft: Result<DraftView, Seq<char>>,
) -> bool {
    match crate::decoder_backend::direct_picture(backend, bytes) {
        Ok(decoded) => draft == decoded_draft(decoded, target_long_edge, options, backend),
        Err(reason) => is_fallback_draft(
            bytes,
            target_long_edge,
            options,
            backend,
            reason,
            draft,
        ),
    }
}

/// Whether this becomes of a file that is tried in a quick way first: a failure of that way counts
/// as not applying.
pub open spec fn is_tried_draft(
    quick: Result<Option<DraftView>, Seq<char>>,
    bytes: Seq<u8>,
    target_long_edge: u32,
    options: DecodeOptions,
    backend: DecodeBackend,
    draft: Result<DraftView, Seq<char>>,
) -> bool {
    match quick {
        Ok(Some(page)) if options.fast_sampled_scaled_decode => draft == Ok::<
            DraftView,
            Seq<char>,
        >(page),
        _ => is_direct_draft(bytes, target_long_edge, options, backend, draft),
    }
}

/// A sampled page, as a draft.
pub open spec fn sampled_draft(
    page: Result<Option<PageView>, Seq<char>>,
    options: DecodeOptions,
) -> Result<Option<DraftView>, Seq<char>> {
    match page {
        Ok(Some(page)) => Ok(Some(ready_draft(page, options))),
        Ok(None) => Ok(None),
        Err(message) => Err(message),
    }
}

/// Whether this becomes of a JPEG file.
pub open spec fn is_jpeg_draft(
    bytes: Seq<u8>,
    target_long_edge: u32,
    options: DecodeOptions,
    draft: Result<DraftView, Seq<char>>,
) -> bool {
    match options.decoder_preferences.jpeg {
        DecoderPreference::Default => is_tried_draft(
            crate::worker::jpeg::scaled_jpeg(bytes, target_long_edge, options),
            bytes,
            target_long_edge,
            options,
            DecodeBackend::ZuneJpeg,
            draft,
        ),
        DecoderPreference::ZuneJpeg => is_direct_draft(bytes, target_long_edge, options, DecodeBackend::ZuneJpeg, draft),
        _ => is_broad_draft(bytes, target_long_edge, options, draft),
    }
}

/// What becomes of a file whose rows are read one by one, where that settles it. An error on an
/// original kept for inspection is final.
pub open spec fn png_rows_draft(
    rows: Result<PngRowView, PngErrorView>,
    sampled_too: bool,
    options: DecodeOptions,
) -> Option<Result<DraftView, Seq<char>>> {
    match rows {
        Ok(PngRowView::ExactOriginal(page)) => Some(Ok(ready_draft(page, options))),
        Ok(PngRowView::Sampled(page)) => if sampled_too {
            Some(Ok(ready_draft(page, options)))
        } else {
            None
        },
        Err(PngErrorView::ExactOriginal(message)) => Some(Err(message)),
        _ => None,
    }
}

/// Whether this becomes of a PNG file whose rows are read one by one first.
pub open spec fn is_png_rows_draft(
    rows: Result<PngRowView, PngErrorView>,
    sampled_too: bool,
    bytes: Seq<u8>,
    target_long_edge: u32,
    options: DecodeOptions,
    draft: Result<DraftView, Seq<char>>,
) -> bool {
    match png_rows_draft(rows, sampled_too, options) {
        Some(settled) => draft == settled,
        None => is_direct_draft(bytes, target_long_edge, options, DecodeBackend::PngCrate, draft),
    }
}

/// Whether this becomes of a PNG file.
pub open spec fn is_png_draft(
    bytes: Seq<u8>,
    target_long_edge: u32,
    options: DecodeOptions,
    draft: Result<DraftView, Seq<char>>,
) -> bool {
    match options.decoder_preferences.png {
        DecoderPreference::Default => is_png_rows_draft(
            crate::worker::png::png_page(
                bytes,
                target_long_edge,
                options.fast_sampled_scaled_decode,
            ),
            true,
            bytes,
            target_long_edge,
            options,
            draft,
        ),
        DecoderPreference::PngCrate => is_png_rows_draft(
            crate::worker::png::png_page(bytes, target_long_edge, false),
            false,
            bytes,
            target_long_edge,
            options,
            draft,
        ),
        DecoderPreference::ZunePng => is_direct_draft(bytes, target_long_edge, options, DecodeBackend::ZunePng, draft),
        _ => is_broad_draft(bytes, target_long_edge, options, draft),
    }
}

/// Whether this becomes of a WebP file.
pub open spec fn is_webp_draft(
    bytes: Seq<u8>,
    target_long_edge: u32,
    options: DecodeOptions,
    draft: Result<DraftView, Seq<char>>,
) -> bool {
    match options.decoder_preferences.webp {
        DecoderPreference::Default => if crate::decoder_backend::webp_animated(bytes) {
            is_direct_draft(bytes, target_long_edge, options, DecodeBackend::ImageWebp, draft)
        } else {
            is_broad_draft(bytes, target_long_edge, options, draft)
        },
        DecoderPreference::ImageWebp => is_direct_draft(bytes, target_long_edge, options, DecodeBackend::ImageWebp, draft),
        DecoderPreference::LibWebp => is_fallback_draft(
            bytes,
            target_long_edge,
            options,
            DecodeBackend::LibWebp,
            "libwebp backend is not enabled in this build"@,
            draft,
        ),
        _ => is_broad_draft(bytes, target_long_edge, options, draft),
    }
}

/// Whether this becomes of a GIF file.
pub open spec fn is_gif_draft(
    bytes: Seq<u8>,
    target_long_edge: u32,
    options: DecodeOptions,
    draft: Result<DraftView, Seq<char>>,
) -> bool {
    match options.decoder_preferences.gif {
        DecoderPreference::Default => is_tried_draft(
            sampled_draft(crate::worker::gif::sampled_gif_page(bytes, target_long_edge), options),
            bytes,
            target_long_edge,
            options,
            DecodeBackend::GifCrate,
            draft,
        ),
        DecoderPreference::GifCrate => is_direct_draft(bytes, target_long_edge, options, DecodeBackend::GifCrate, draft),
        _ => is_broad_draft(bytes, target_long_edge, options, draft),
    }
}

/// Whether this becomes of a BMP file.
pub open spec fn is_bmp_draft(
    bytes: Seq<u8>,
    target_long_edge: u32,
    options: DecodeOptions,
    draft: Result<DraftView, Seq<char>>,
) -> bool {
    match options.decoder_preferences.bmp {
        DecoderPreference::Default => is_tried_draft(
            sampled_draft(crate::worker::bmp::sampled_bmp_page(bytes, target_long_edge), options),
            bytes,
            target_long_edge,
            options,
            DecodeBackend::BmpFastPath,
            draft,
        ),
        DecoderPreference::BmpFastPath => is_direct_draft(bytes, target_long_edge, options, DecodeBackend::BmpFastPath, draft),
        _ => is_broad_draft(bytes, target_long_edge, options, draft),
    }
}

/// Whether this becomes of an ICO file.
pub open spec fn is_ico_draft(
    bytes: Seq<u8>,
    target_long_edge: u32,
    options: DecodeOptions,
    draft: Result<DraftView, Seq<char>>,
) -> bool {
    match options.decoder_preferences.ico {
        DecoderPreference::IcoFastPath => is_direct_draft(bytes, target_long_edge, options, DecodeBackend::IcoFastPath, draft),
        _ => is_broad_draft(bytes, target_long_edge, options, draft),
    }
}

/// Whether this becomes of an AVIF file.
pub open spec fn is_avif_draft(
    bytes: Seq<u8>,
    target_long_edge: u32,
    options: DecodeOptions,
    draft: Result<DraftView, Seq<char>>,
) -> bool {
    match options.decoder_preferences.avif {
        DecoderPreference::Default | DecoderPreference::LibAvifDav1d => is_fallback_draft(
            bytes,
            target_long_edge,
            options,
            DecodeBackend::LibAvifDav1d,
            "libavif + dav1d backend is not enabled in this build"@,
            draft,
        ),
        _ => is_broad_draft(bytes, target_long_edge, options, draft),
    }
}

/// What becomes of a Photoshop file, for which there is no second decoder.
pub open spec fn psd_draft(bytes: Seq<u8>, target_long_edge: u32, options: DecodeOptions) -> Result<
    DraftView,
    Seq<char>,
> {
    match crate::decoder_backend::direct_picture(DecodeBackend::ZunePsd, bytes) {
        Ok(decoded) => decoded_draft(decoded, target_long_edge, options, DecodeBackend::ZunePsd),
        Err(message) => Err(message),
    }
}

/// Whether this becomes of a file by its format and the preferences for it.
pub open spec fn is_selected_draft(
    bytes: Seq<u8>,
    target_long_edge: u32,
    options: DecodeOptions,
    draft: Result<DraftView, Seq<char>>,
) -> bool {
    match crate::decoder_backend::format_of(bytes) {
        Some(DecoderFormat::Jpeg) => is_jpeg_draft(bytes, target_long_edge, options, draft),
        Some(DecoderFormat::Png) => is_png_draft(bytes, target_long_edge, options, draft),
        Some(DecoderFormat::Webp) => is_webp_draft(bytes, target_long_edge, options, draft),
        Some(DecoderFormat::Gif) => is_gif_draft(bytes, target_long_edge, options, draft),
        Some(DecoderFormat::Bmp) => is_bmp_draft(bytes, target_long_edge, options, draft),
        Some(DecoderFormat::Ico) => is_ico_draft(bytes, target_long_edge, options, draft),
        Some(DecoderFormat::Avif) => is_avif_draft(bytes, target_long_edge, options, draft),
        Some(DecoderFormat::Psd) => draft == psd_draft(bytes, target_long_edge, options),
        Some(DecoderFormat::AiPdf) => draft == Err::<DraftView, Seq<char>>(
            "PDF-compatible AI preview requires a native-ai build with bundled PDFium"@,
        ),
        Some(DecoderFormat::Svg) => is_broad_draft(bytes, target_long_edge, options, draft),
        None => is_broad_draft(bytes, target_long_edge, options, draft),
    }
}

/// Gives a file to the decoder for its format: see `is_selected_draft`.
pub fn prepare_image_with_selected_decoder(
    bytes: &[u8],
    target_long_edge: u32,
    options: DecodeOptions,
) -> (draft: Result<PageDraft, String>)
    ensures
        is_selected_draft(
            bytes@,
            target_long_edge,
            options,
            crate::worker::draft::draft_outcome(draft),
        ),
        draft matches Ok(draft) ==> draft@.wf() && draft@.page.target_long_edge
            == crate::worker::api::clamped_target(target_long_edge),
{
    match detect_format(bytes) {
        Some(DecoderFormat::Jpeg) => prepare_jpeg_with_preference(
            bytes,
            target_long_edge,
            options,
        ),
        Some(DecoderFormat::Png) => prepare_png_with_preference(bytes, target_long_edge, options),
        Some(DecoderFormat::Webp) => prepare_webp_with_preference(
            bytes,
            target_long_edge,
            options,
        ),
        Some(DecoderFormat::Gif) => prepare_gif_with_preference(bytes, target_long_edge, options),
        Some(DecoderFormat::Bmp) => prepare_bmp_with_preference(bytes, target_long_edge, options),
        Some(DecoderFormat::Ico) => prepare_ico_with_preference(bytes, target_long_edge, options),
        Some(DecoderFormat::Avif) => prepare_avif_with_preference(
            bytes,
            target_long_edge,
            options,
        ),
        Some(DecoderFormat::Psd) => prepare_required_direct(
            bytes,
            target_long_edge,
            options,
            DecodeBackend::ZunePsd,
        ),
        Some(DecoderFormat::AiPdf) => Err(
            "PDF-compatible AI preview requires a native-ai build with bundled PDFium".to_owned(),
        ),
        Some(DecoderFormat::Svg) => prepare_image_with_image_crate(
            bytes,
            target_long_edge,
            options,
        ),
        None => prepare_image_with_image_crate(bytes, target_long_edge, options),
    }
}

pub fn prepare_jpeg_with_preference(
    bytes: &[u8],
    target_long_edge: u32,
    options: DecodeOptions,
) -> (draft: Result<PageDraft, String>)
    ensures
        is_jpeg_draft(bytes@, target_long_edge, options, crate::worker::draft::draft_outcome(draft)),
        draft matches Ok(draft) ==> draft@.wf() && draft@.page.target_long_edge
            == crate::worker::api::clamped_target(target_long_edge),
{
    match options.decoder_preferences.jpeg {
        DecoderPreference::Default => {
            if options.fast_sampled_scaled_decode {
                if let Ok(Some(draft)) = prepare_image_with_scaled_jpeg(
                    bytes,
                    target_long_edge,
                    options,
                ) {
                    return Ok(draft);
                }
            }
            prepare_direct_or_image_fallback(
                bytes,
                target_long_edge,
                options,
                DecodeBackend::ZuneJpeg,
            )
        },
        DecoderPreference::ZuneJpeg => prepare_direct_or_image_fallback(
            bytes,
            target_long_edge,
            options,
            DecodeBackend::ZuneJpeg,
        ),
        _ => prepare_image_with_image_crate(bytes, target_long_edge, options),
    }
}

fn ready(page: PreparedPage, options: DecodeOptions) -> (draft: PageDraft)
    requires
        0 <= page@.display.0 <= u32::MAX,
        0 <= page@.display.1 <= u32::MAX,
        page@.sound(),
    ensures
        draft@ == ready_draft(page@, options),
        draft@.wf(),
{
    let display: (u32, u32) = (page.display_width as u32, page.display_height as u32);
    draft_from_page(page, display, options.cpu_downscale_filter)
}

pub fn prepare_png_with_preference(
    bytes: &[u8],
    target_long_edge: u32,
    options: DecodeOptions,
) -> (draft: Result<PageDraft, String>)
    ensures
        is_png_draft(bytes@, target_long_edge, options, crate::worker::draft::draft_outcome(draft)),
        draft matches Ok(draft) ==> draft@.wf() && draft@.page.target_long_edge
            == crate::worker::api::clamped_target(target_long_edge),
{
    match options.decoder_preferences.png {
        DecoderPreference::Default => {
            match prepare_image_with_png_rows_for_mode(
                bytes,
                target_long_edge,
                options.fast_sampled_scaled_decode,
            ) {
                Ok(PngRowResult::ExactOriginal(page)) => {
                    return Ok(ready(page, options));
                },
                Ok(PngRowResult::Sampled(page)) => {
                    return Ok(ready(page, options));
                },
                Ok(PngRowResult::Unsupported) => {},
                Err(PngRowError::ExactOriginal(message)) => {
                    return Err(message);
                },
                Err(PngRowError::FallbackAllowed(_)) => {},
            }
            prepare_direct_or_image_fallback(
                bytes,
                target_long_edge,
                options,
                DecodeBackend::PngCrate,
            )
        },
        DecoderPreference::PngCrate => {
            match prepare_exact_original_with_png_rows(bytes, target_long_edge) {
                Ok(Some(page)) => {
                    return Ok(ready(page, options));
                },
                Ok(None) => {},
                Err(PngRowError::ExactOriginal(message)) => {
                    return Err(message);
                },
                Err(PngRowError::FallbackAllowed(_)) => {},
            }
            prepare_direct_or_image_fallback(
                bytes,
                target_long_edge,
                options,
                DecodeBackend::PngCrate,
            )
        },
        DecoderPreference::ZunePng => prepare_direct_or_image_fallback(
            bytes,
            target_long_edge,
            options,
            DecodeBackend::ZunePng,
        ),
        _ => prepare_image_with_image_crate(bytes, target_long_edge, options),
    }
}

pub fn prepare_webp_with_preference(
    bytes: &[u8],
    target_long_edge: u32,
    options: DecodeOptions,
) -> (draft: Result<PageDraft, String>)
    ensures
        is_webp_draft(bytes@, target_long_edge, options, crate::worker::draft::draft_outcome(draft)),
        draft matches Ok(draft) ==> draft@.wf() && draft@.page.target_long_edge
            == crate::worker::api::clamped_target(target_long_edge),
{
    match options.decoder_preferences.webp {
        DecoderPreference::Default => {
            if is_webp_animated(bytes) {
                return prepare_direct_or_image_fallback(
                    bytes,
                    target_long_edge,
                    options,
                    DecodeBackend::ImageWebp,
                );
            }
            prepare_image_with_image_crate(bytes, target_long_edge, options)
        },
        DecoderPreference::ImageWebp => prepare_direct_or_image_fallback(
            bytes,
            target_long_edge,
            options,
            DecodeBackend::ImageWebp,
        ),
        DecoderPreference::LibWebp => prepare_unavailable_or_image_fallback(
            bytes,
            target_long_edge,
            options,
            DecodeBackend::LibWebp,
            "libwebp backend is not enabled in this build",
        ),
        _ => prepare_image_with_image_crate(bytes, target_long_edge, options),
    }
}

pub fn prepare_gif_with_preference(
    bytes: &[u8],
    target_long_edge: u32,
    options: DecodeOptions,
) -> (draft: Result<PageDraft, String>)
    ensures
        is_gif_draft(bytes@, target_long_edge, options, crate::worker::draft::draft_outcome(draft)),
        draft matches Ok(draft) ==> draft@.wf() && draft@.page.target_long_edge
            == crate::worker::api::clamped_target(target_long_edge),
{
    match options.decoder_preferences.gif {
        DecoderPreference::Default => {
            if options.fast_sampled_scaled_decode {
                if let Ok(Some(page)) = prepare_image_with_sampled_gif(bytes, target_long_edge) {
                    return Ok(ready(page, options));
                }
            }
            prepare_direct_or_image_fallback(
                bytes,
                target_long_edge,
                options,
                DecodeBackend::GifCrate,
            )
        },
        DecoderPreference::GifCrate => prepare_direct_or_image_fallback(
            bytes,
            target_long_edge,
            options,
            DecodeBackend::GifCrate,
        ),
        _ => prepare_image_with_image_crate(bytes, target_long_edge, options),
    }
}

pub fn prepare_bmp_with_preference(
    bytes: &[u8],
    target_long_edge: u32,
    options: DecodeOptions,
) -> (draft: Result<PageDraft, String>)
    ensures
        is_bmp_draft(bytes@, target_long_edge, options, crate::worker::draft::draft_outcome(draft)),
        draft matches Ok(draft) ==> draft@.wf() && draft@.page.target_long_edge
            == crate::worker::api::clamped_target(target_long_edge),
{
    match options.decoder_preferences.bmp {
        DecoderPreference::Default => {
            if options.fast_sampled_scaled_decode {
                if let Ok(Some(page)) = prepare_image_with_sampled_bmp(bytes, target_long_edge) {
                    return Ok(ready(page, options));
                }
            }
            prepare_direct_or_image_fallback(
                bytes,
                target_long_edge,
                options,
                DecodeBackend::BmpFastPath,
            )
        },
        DecoderPreference::BmpFastPath => prepare_direct_or_image_fallback(
            bytes,
            target_long_edge,
            options,
            DecodeBackend::BmpFastPath,
        ),
        _ => prepare_image_with_image_crate(bytes, target_long_edge, options),
    }
}

pub fn prepare_ico_with_preference(
    bytes: &[u8],
    target_long_edge: u32,
    options: DecodeOptions,
) -> (draft: Result<PageDraft, String>)
    ensures
        is_ico_draft(bytes@, target_long_edge, options, crate::worker::draft::draft_outcome(draft)),
        draft matches Ok(draft) ==> draft@.wf() && draft@.page.target_long_edge
            == crate::worker::api::clamped_target(target_long_edge),
{
    match options.decoder_preferences.ico {
        DecoderPreference::IcoFastPath => prepare_direct_or_image_fallback(
            bytes,
            target_long_edge,
            options,
            DecodeBackend::IcoFastPath,
        ),
        _ => prepare_image_with_image_crate(bytes, target_long_edge, options),
    }
}

pub fn prepare_avif_with_preference(
    bytes: &[u8],
    target_long_edge: u32,
    options: DecodeOptions,
) -> (draft: Result<PageDraft, String>)
    ensures
        is_avif_draft(bytes@, target_long_edge, options, crate::worker::draft::draft_outcome(draft)),
        draft matches Ok(draft) ==> draft@.wf() && draft@.page.target_long_edge
            == crate::worker::api::clamped_target(target_long_edge),
{
    match options.decoder_preferences.avif {
        DecoderPreference::Default
        | DecoderPreference::LibAvifDav1d => prepare_unavailable_or_image_fallback(
            bytes,
            target_long_edge,
            options,
            DecodeBackend::LibAvifDav1d,
            "libavif + dav1d backend is not enabled in this build",
        ),
        _ => prepare_image_with_image_crate(bytes, target_long_edge, options),
    }
}

/// Decodes a file with the decoder made for its format, or else with the broad one.
pub fn prepare_direct_or_image_fallback(
    bytes: &[u8],
    target_long_edge: u32,
    options: DecodeOptions,
    backend: DecodeBackend,
) -> (draft: Result<PageDraft, String>)
    ensures
        is_direct_draft(
            bytes@,
            target_long_edge,
            options,
            backend,
            crate::worker::draft::draft_outcome(draft),
        ),
        draft matches Ok(draft) ==> draft@.wf() && draft@.page.target_long_edge
            == crate::worker::api::clamped_target(target_long_edge),
{
    match decode_direct(backend, bytes) {
        Ok(decoded) => prepare_decoded_rgba(decoded, target_long_edge, options, backend),
        Err(error) => prepare_unavailable_or_image_fallback(
            bytes,
            target_long_edge,
            options,
            backend,
            error.as_str(),
        ),
    }
}

/// Decodes a file with the decoder made for its format, and no other.
pub fn prepare_required_direct(
    bytes: &[u8],
    target_long_edge: u32,
    options: DecodeOptions,
    backend: DecodeBackend,
) -> (draft: Result<PageDraft, String>)
    ensures
        crate::worker::draft::draft_outcome(draft) == match crate::decoder_backend::direct_picture(
            backend,
            bytes@,
        ) {
            Ok(decoded) => decoded_draft(decoded, target_long_edge, options, backend),
            Err(message) => Err(message),
        },
        draft matches Ok(draft) ==> draft@.wf() && draft@.page.target_long_edge
            == crate::worker::api::clamped_target(target_long_edge),
{
    let decoded = decode_direct(backend, bytes)?;
    prepare_decoded_rgba(decoded, target_long_edge, options, backend)
}

/// Decodes a file with the broad decoder because another one could not: see `is_fallback_draft`.
pub fn prepare_unavailable_or_image_fallback(
    bytes: &[u8],
    target_long_edge: u32,
    options: DecodeOptions,
    backend: DecodeBackend,
    reason: &str,
) -> (draft: Result<PageDraft, String>)
    ensures
        is_fallback_draft(
            bytes@,
            target_long_edge,
            options,
            backend,
            reason@,
            crate::worker::draft::draft_outcome(draft),
        ),
        draft matches Ok(draft) ==> draft@.wf() && draft@.page.target_long_edge
            == crate::worker::api::clamped_target(target_long_edge),
{
    let mut message = backend.as_str().to_owned();
    let broad = prepare_image_with_image_crate(bytes, target_long_edge, options);
    let ghost outcome = crate::worker::draft::draft_outcome(broad);
    assert(is_broad_draft(bytes@, target_long_edge, options, outcome));
    match broad {
        Ok(draft) => {
            message.append(" failed; used image fallback: ");
            message.append(reason);
            Ok(draft.with_notice(message))
        },
        Err(error) => {
            message.append(" failed: ");
            message.append(reason);
            message.append("; image fallback failed: ");
            message.append(error.as_str());
            Err(message)
        },
    }
}

/// Drafts the page of an RGBA picture: see `decoded_draft`.
pub fn prepare_decoded_rgba(
    decoded: DecodedRgba,
    target_long_edge: u32,
    options: DecodeOptions,
    backend: DecodeBackend,
) -> (draft: Result<PageDraft, String>)
    ensures
        crate::worker::draft::draft_outcome(draft) == decoded_draft(
            decoded@,
            target_long_edge,
            options,
            backend,
        ),
        draft matches Ok(draft) ==> draft@.wf() && draft@.page.target_long_edge
            == crate::worker::api::clamped_target(target_long_edge),
{
    reject_oversized_original(decoded.width, decoded.height)?;
    proof {
        assert(decoded.width * decoded.height <= 400_000_000) by (nonlinear_arith)
            requires
                decoded.width <= 20_000,
                decoded.height <= 20_000,
        ;
    }
    if decoded.pixels.len() != decoded.width as usize * decoded.height as usize * 4 {
        return Err("Decoded RGBA buffer did not match dimensions".to_owned());
    }
    let target: u32 = clamp_target_long_edge(target_long_edge);
    let size: (u32, u32) = (decoded.width, decoded.height);
    let display: (u32, u32) = display_dimensions_with_upscale(
        size.0,
        size.1,
        target,
        options.allow_display_upscale,
    )?;
    let filter = options.scale_filter_for(size.0, size.1, display.0, display.1);
    proof {
        crate::worker::prepare::display_size_fits_the_target(
            size.0,
            size.1,
            target,
            options.allow_display_upscale,
        );
        crate::worker::resize::lemma_edges_are_countable(size, display);
    }
    draft_page(false, None, decoded.pixels, size, size, display, target, backend, filter, None)
}

/// Whether a draft came from a decoder: from that decoder itself, or else, where it could not read
/// the file, from the broad one with a notice.
pub open spec fn is_read_by(draft: DraftView, backend: DecodeBackend, bytes: Seq<u8>) -> bool {
    match crate::decoder_backend::direct_picture(backend, bytes) {
        Ok(decoded) => {
            &&& draft.page.decode_backend == backend && draft.page.notice is None
            &&& draft.page.original == (decoded.width as int, decoded.height as int)
            &&& draft.page.bytes == decoded.pixels && !draft.page.luma
            &&& draft.size == (decoded.width, decoded.height)
        },
        Err(_) => draft.page.decode_backend == DecodeBackend::ImageCrate && draft.page.notice is Some,
    }
}

/// Whether a draft came from the broad decoder, as was asked for.
pub open spec fn is_read_broadly(draft: DraftView) -> bool {
    draft.page.decode_backend == DecodeBackend::ImageCrate && draft.page.notice is None
}

proof fn lemma_broad_draft(
    bytes: Seq<u8>,
    target_long_edge: u32,
    options: DecodeOptions,
    draft: DraftView,
)
    requires
        is_broad_draft(bytes, target_long_edge, options, Ok::<DraftView, Seq<char>>(draft)),
    ensures
        is_read_broadly(draft),
{
}

proof fn lemma_direct_draft(
    bytes: Seq<u8>,
    target_long_edge: u32,
    options: DecodeOptions,
    backend: DecodeBackend,
    draft: DraftView,
)
    requires
        is_direct_draft(bytes, target_long_edge, options, backend, Ok::<DraftView, Seq<char>>(draft)),
    ensures
        is_read_by(draft, backend, bytes),
{
    if let Err(reason) = crate::decoder_backend::direct_picture(backend, bytes) {
        lemma_fallback_draft(bytes, target_long_edge, options, backend, reason, draft);
    }
}

proof fn lemma_fallback_draft(
    bytes: Seq<u8>,
    target_long_edge: u32,
    options: DecodeOptions,
    backend: DecodeBackend,
    reason: Seq<char>,
    draft: DraftView,
)
    requires
        is_fallback_draft(
            bytes,
            target_long_edge,
            options,
            backend,
            reason,
            Ok::<DraftView, Seq<char>>(draft),
        ),
    ensures
        draft.page.decode_backend == DecodeBackend::ImageCrate,
        draft.page.notice == Some(backend.as_str_spec() + " failed; used image fallback: "@ + reason),
{
    let broad = choose|broad: Result<DraftView, Seq<char>>|
        #[trigger] is_broad_draft(bytes, target_long_edge, options, broad) && Ok::<
            DraftView,
            Seq<char>,
        >(draft) == noticed_draft(broad, backend, reason);
    lemma_broad_draft(bytes, target_long_edge, options, broad->Ok_0);
}

/// A file is read by the decoder that the preference for its own format names. Without a preference
/// a JPEG, PNG, GIF or BMP file that is far larger than the target may be reduced while it is read,
/// where that is allowed, and is read whole by the decoder made for its format otherwise. Where that
/// decoder cannot read the file, the broad one does and the page says so.
pub proof fn files_are_read_by_the_preferred_decoder(
    bytes: Seq<u8>,
    target_long_edge: u32,
    options: DecodeOptions,
    draft: DraftView,
)
    requires
        is_selected_draft(
            bytes,
            target_long_edge,
            options,
            Ok::<DraftView, Seq<char>>(draft),
        ),
    ensures
        ({
            let format = crate::decoder_backend::format_of(bytes);
            let preferences = options.decoder_preferences;
            let reduced = options.fast_sampled_scaled_decode && draft.page.notice is None;
            let backend = draft.page.decode_backend;
            &&& format == Some(DecoderFormat::Jpeg) ==> {
                &&& preferences.jpeg == DecoderPreference::Default ==> reduced && backend
                    == DecodeBackend::JpegScaled || is_read_by(
                    draft,
                    DecodeBackend::ZuneJpeg,
                    bytes,
                )
                &&& preferences.jpeg == DecoderPreference::ZuneJpeg ==> is_read_by(
                    draft,
                    DecodeBackend::ZuneJpeg,
                    bytes,
                )
                &&& preferences.jpeg == DecoderPreference::ImageCrate ==> is_read_broadly(draft)
            }
            &&& format == Some(DecoderFormat::Png) ==> {
                &&& preferences.png == DecoderPreference::Default ==> reduced && backend
                    == DecodeBackend::PngSampled || draft.page.notice is None && backend
                    == DecodeBackend::PngExactRows || is_read_by(
                    draft,
                    DecodeBackend::PngCrate,
                    bytes,
                )
                &&& preferences.png == DecoderPreference::PngCrate ==> draft.page.notice is None
                    && backend == DecodeBackend::PngExactRows || is_read_by(
                    draft,
                    DecodeBackend::PngCrate,
                    bytes,
                )
                &&& preferences.png == DecoderPreference::ZunePng ==> is_read_by(
                    draft,
                    DecodeBackend::ZunePng,
                    bytes,
                )
                &&& preferences.png == DecoderPreference::ImageCrate ==> is_read_broadly(draft)
            }
            &&& format == Some(DecoderFormat::Webp) ==> {
                &&& preferences.webp == DecoderPreference::ImageWebp ==> is_read_by(
                    draft,
                    DecodeBackend::ImageWebp,
                    bytes,
                )
                &&& preferences.webp == DecoderPreference::Default
                    && crate::decoder_backend::webp_animated(bytes) ==> is_read_by(
                    draft,
                    DecodeBackend::ImageWebp,
                    bytes,
                )
                &&& preferences.webp == DecoderPreference::Default
                    && !crate::decoder_backend::webp_animated(bytes) ==> is_read_broadly(draft)
                &&& preferences.webp == DecoderPreference::LibWebp ==> backend
                    == DecodeBackend::ImageCrate && draft.page.notice is Some
                &&& preferences.webp == DecoderPreference::ImageCrate ==> is_read_broadly(draft)
            }
            &&& format == Some(DecoderFormat::Gif) ==> {
                &&& preferences.gif == DecoderPreference::Default ==> reduced && backend
                    == DecodeBackend::GifSampled || is_read_by(
                    draft,
                    DecodeBackend::GifCrate,
                    bytes,
                )
                &&& preferences.gif == DecoderPreference::GifCrate ==> is_read_by(
                    draft,
                    DecodeBackend::GifCrate,
                    bytes,
                )
                &&& preferences.gif == DecoderPreference::ImageCrate ==> is_read_broadly(draft)
            }
            &&& format == Some(DecoderFormat::Bmp) ==> {
                &&& preferences.bmp == DecoderPreference::Default ==> reduced && backend
                    == DecodeBackend::BmpSampled || is_read_by(
                    draft,
                    DecodeBackend::BmpFastPath,
                    bytes,
                )
                &&& preferences.bmp == DecoderPreference::BmpFastPath ==> is_read_by(
                    draft,
                    DecodeBackend::BmpFastPath,
                    bytes,
                )
                &&& preferences.bmp == DecoderPreference::ImageCrate ==> is_read_broadly(draft)
            }
            &&& format == Some(DecoderFormat::Ico) ==> {
                &&& preferences.ico == DecoderPreference::IcoFastPath ==> is_read_by(
                    draft,
                    DecodeBackend::IcoFastPath,
                    bytes,
                )
                &&& preferences.ico == DecoderPreference::Default || preferences.ico
                    == DecoderPreference::ImageCrate ==> is_read_broadly(draft)
            }
            &&& format == Some(DecoderFormat::Avif) ==> {
                &&& preferences.avif == DecoderPreference::Default || preferences.avif
                    == DecoderPreference::LibAvifDav1d ==> backend == DecodeBackend::ImageCrate
                    && draft.page.notice is Some
                &&& preferences.avif == DecoderPreference::ImageCrate ==> is_read_broadly(draft)
            }
            &&& format == Some(DecoderFormat::Psd) ==> backend == DecodeBackend::ZunePsd
                && is_read_by(draft, DecodeBackend::ZunePsd, bytes)
            &&& format != Some(DecoderFormat::AiPdf)
            &&& format is None || format == Some(DecoderFormat::Svg) ==> is_read_broadly(draft)
        }),
{
    let ok = Ok::<DraftView, Seq<char>>(draft);
    assert forall|backend: DecodeBackend|
        #[trigger] is_direct_draft(bytes, target_long_edge, options, backend, ok) implies is_read_by(
        draft,
        backend,
        bytes,
    ) by {
        lemma_direct_draft(bytes, target_long_edge, options, backend, draft);
    }
    assert forall|backend: DecodeBackend, reason: Seq<char>|
        #[trigger] is_fallback_draft(bytes, target_long_edge, options, backend, reason, ok) implies (
    draft.page.decode_backend == DecodeBackend::ImageCrate && draft.page.notice is Some) by {
        lemma_fallback_draft(bytes, target_long_edge, options, backend, reason, draft);
    }
    if is_broad_draft(bytes, target_long_edge, options, ok) {
        lemma_broad_draft(bytes, target_long_edge, options, draft);
    }
}

/// Whether a draft is shown at the size that fits the target: an original that is kept for inspection
/// stays at its own.
pub open spec fn is_fitted(draft: DraftView, target_long_edge: u32, options: DecodeOptions) -> bool {
    let (width, height) = draft.page.original;
    &&& 0 < width <= u32::MAX && 0 < height <= u32::MAX
    &&& draft.page.display == (draft.display.0 as int, draft.display.1 as int)
    &&& draft.display == crate::worker::prepare::display_size(
        width as u32,
        height as u32,
        target_long_edge,
        options.allow_display_upscale,
    ) || draft.page.decode_backend == DecodeBackend::PngExactRows && draft.display == (
        width as u32,
        height as u32,
    )
    &&& draft.orientation is None
}

/// What the broad decoder drafts is fitted, and carries the profile that it was given.
pub proof fn lemma_broad_draft_is_fitted(
    bytes: Seq<u8>,
    target_long_edge: u32,
    options: DecodeOptions,
    icc_profile: Option<Seq<u8>>,
    draft: DraftView,
)
    requires
        crate::worker::image_crate::is_image_draft(
            bytes,
            target_long_edge,
            options,
            options.allow_display_upscale,
            icc_profile,
            Ok::<DraftView, Seq<char>>(draft),
        ),
    ensures
        is_fitted(draft, target_long_edge, options),
        draft.icc_profile == icc_profile,
        is_read_broadly(draft),
{
}

proof fn lemma_direct_draft_is_fitted(
    bytes: Seq<u8>,
    target_long_edge: u32,
    options: DecodeOptions,
    backend: DecodeBackend,
    draft: DraftView,
)
    requires
        is_direct_draft(bytes, target_long_edge, options, backend, Ok::<DraftView, Seq<char>>(draft)),
    ensures
        is_fitted(draft, target_long_edge, options),
        draft.icc_profile is None,
{
    if let Err(reason) = crate::decoder_backend::direct_picture(backend, bytes) {
        lemma_fallback_draft_is_fitted(bytes, target_long_edge, options, backend, reason, draft);
    }
}

proof fn lemma_fallback_draft_is_fitted(
    bytes: Seq<u8>,
    target_long_edge: u32,
    options: DecodeOptions,
    backend: DecodeBackend,
    reason: Seq<char>,
    draft: DraftView,
)
    requires
        is_fallback_draft(
            bytes,
            target_long_edge,
            options,
            backend,
            reason,
            Ok::<DraftView, Seq<char>>(draft),
        ),
    ensures
        is_fitted(draft, target_long_edge, options),
        draft.icc_profile is None,
{
    let broad = choose|broad: Result<DraftView, Seq<char>>|
        #[trigger] is_broad_draft(bytes, target_long_edge, options, broad) && Ok::<
            DraftView,
            Seq<char>,
        >(draft) == noticed_draft(broad, backend, reason);
    lemma_broad_draft_is_fitted(bytes, target_long_edge, options, None, broad->Ok_0);
}

/// Every page is shown at the size that fits the target, whichever decoder reads it, and none is
/// turned or recolored before the file's metadata says so.
pub proof fn selected_drafts_are_fitted(
    bytes: Seq<u8>,
    target_long_edge: u32,
    options: DecodeOptions,
    draft: DraftView,
)
    requires
        is_selected_draft(
            bytes,
            target_long_edge,
            options,
            Ok::<DraftView, Seq<char>>(draft),
        ),
    ensures
        is_fitted(draft, target_long_edge, options),
        draft.icc_profile is None,
{
    let ok = Ok::<DraftView, Seq<char>>(draft);
    assert forall|backend: DecodeBackend|
        #[trigger] is_direct_draft(bytes, target_long_edge, options, backend, ok) implies is_fitted(
        draft,
        target_long_edge,
        options,
    ) && draft.icc_profile is None by {
        lemma_direct_draft_is_fitted(bytes, target_long_edge, options, backend, draft);
    }
    assert forall|backend: DecodeBackend, reason: Seq<char>|
        #[trigger] is_fallback_draft(bytes, target_long_edge, options, backend, reason, ok) implies is_fitted(
        draft,
        target_long_edge,
        options,
    ) && draft.icc_profile is None by {
        lemma_fallback_draft_is_fitted(bytes, target_long_edge, options, backend, reason, draft);
    }
    if is_broad_draft(bytes, target_long_edge, options, ok) {
        lemma_broad_draft_is_fitted(bytes, target_long_edge, options, None, draft);
    }
    match crate::decoder_backend::format_of(bytes) {
        Some(DecoderFormat::Jpeg) => {},
        Some(DecoderFormat::Gif) => {},
        Some(DecoderFormat::Bmp) => {
            if let Ok(Some(header)) = crate::worker::bmp::bmp_header(bytes) {
                crate::worker::bmp::bmp_headers_are_read_from_their_places(bytes, header);
            }
        },
        _ => {},
    }
}

/// A picture that was decoded whole is drafted in its own pixels and size, and is to be resized with the
/// filter for the direction in which it goes. It is refused where it is without pixels or beyond the
/// limits, or where its pixels do not make up its size.
pub proof fn whole_pictures_are_drafted_as_they_are(
    decoded: DecodedView,
    target_long_edge: u32,
    options: DecodeOptions,
    backend: DecodeBackend,
)
    ensures
        decoded_draft(decoded, target_long_edge, options, backend) matches Ok(draft) ==> {
            &&& draft.page.bytes == decoded.pixels && !draft.page.luma && draft.layout is None
            &&& draft.page.original == (decoded.width as int, decoded.height as int)
            &&& draft.size == (decoded.width, decoded.height)
            &&& draft.page.decode_backend == backend && draft.page.notice is None
            &&& draft.filter == if draft.display.0 <= decoded.width && draft.display.1
                <= decoded.height {
                options.cpu_downscale_filter
            } else {
                options.cpu_upscale_filter
            }
            &&& decoded.width > 0 && decoded.height > 0
            &&& decoded.width <= 20_000 && decoded.height <= 20_000
            &&& decoded.pixels.len() == 4 * (decoded.width * decoded.height) <= 268_435_456
        },
        decoded.width == 0 || decoded.height == 0 || decoded.width > 20_000 || decoded.height > 20_000
            || decoded.pixels.len() != 4 * (decoded.width * decoded.height) || decoded.pixels.len()
            > 268_435_456 ==> decoded_draft(decoded, target_long_edge, options, backend) is Err,
{
}

} // verus!
