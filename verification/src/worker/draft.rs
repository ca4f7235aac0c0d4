//! Decoded pages on their way to the size at which they are shown.
//!
//! A draft holds pixels at the size at which they were decoded. Finishing it resizes them, applies
//! the color profile, and turns the page. The two-lobed Lanczos kernel is not among those of the
//! fast resizer: a draft that asks for it is not finished here, and a caller that has the kernel
//! resizes the pixels itself, see `kernel_request`.
use crate::state::CpuScaleFilter;
use crate::text;
use crate::worker::api::{
    DecodeBackend, PagePixels, PageView, PreparedPage, MAX_DECODED_PAGE_BYTES,
};
use crate::worker::metadata::{
    apply_embedded_icc_to_rgba, apply_exif_orientation_to_page, Orientation,
};
use crate::worker::pixels::{to_rgba, PixelLayout};
use crate::worker::prepare::shared_bytes;
use crate::worker::resize::{fast_kernel, resize_fallback, resize_luma, resize_rgba};
use vstd::prelude::*;

verus! {

/// A page whose pixels may still have another size than the page is shown at.
pub struct PageDraft {
    /// The page, but for its pixels, which have the size `size`.
    pub page: PreparedPage,
    /// The layout of samples that the broad resizer resizes before they are expanded to RGBA.
    pub layout: Option<PixelLayout>,
    pub size: (u32, u32),
    pub display: (u32, u32),
    pub filter: CpuScaleFilter,
    pub icc_profile: Option<Vec<u8>>,
    pub orientation: Option<Orientation>,
}

/// A draft as plain data.
pub struct DraftView {
    pub page: PageView,
    pub layout: Option<PixelLayout>,
    pub size: (u32, u32),
    pub display: (u32, u32),
    pub filter: CpuScaleFilter,
    pub icc_profile: Option<Seq<u8>>,
    pub orientation: Option<Orientation>,
}

impl View for PageDraft {
    type V = DraftView;

    open spec fn view(&self) -> DraftView {
        DraftView {
            page: self.page@,
            layout: self.layout,
            size: self.size,
            display: self.display,
            filter: self.filter,
            icc_profile: match self.icc_profile {
                Some(profile) => Some(profile@),
                None => None,
            },
            orientation: self.orientation,
        }
    }
}

/// The result of drafting a page as plain data.
pub open spec fn draft_outcome(result: Result<PageDraft, String>) -> Result<DraftView, Seq<char>> {
    match result {
        Ok(draft) => Ok(draft@),
        Err(message) => Err(message@),
    }
}

/// The result of drafting a page in a way that may not apply, as plain data.
pub open spec fn optional_draft(result: Result<Option<PageDraft>, String>) -> Result<
    Option<DraftView>,
    Seq<char>,
> {
    match result {
        Ok(Some(draft)) => Ok(Some(draft@)),
        Ok(None) => Ok(None),
        Err(message) => Err(message@),
    }
}

impl DraftView {
    /// Bytes per pixel.
    pub open spec fn depth(self) -> int {
        match self.layout {
            Some(layout) => layout.width(),
            None => self.page.depth(),
        }
    }

    /// The pixels make up their size, and the page is within the budget of one page. Samples that
    /// are not expanded yet are still to be resized, and no page is kept gray that holds them. A
    /// color profile goes with RGBA pixels.
    pub open spec fn wf(self) -> bool {
        &&& self.page.display == (self.display.0 as int, self.display.1 as int)
        &&& self.page.bytes.len() == self.size.0 * self.size.1 * self.depth()
        &&& self.display.0 * self.display.1 * 4 <= MAX_DECODED_PAGE_BYTES
        &&& self.size != self.display ==> crate::worker::resize::countable(
            self.size,
            self.display,
        )
        &&& self.layout is Some ==> self.size != self.display && !self.page.luma
        &&& self.icc_profile is Some ==> !self.page.luma
    }

    /// Whether the pixels are to be resized with a kernel that the fast resizer does not have.
    pub open spec fn needs_kernel(self) -> bool {
        self.size != self.display && self.layout is None && crate::worker::resize::fast_kernel_of(
            self.filter,
        ) is None
    }

    /// Whether these may be the pixels at the size at which they are shown.
    pub open spec fn scales_to(self, scaled: Seq<u8>) -> bool {
        if self.size == self.display {
            scaled == self.page.bytes
        } else {
            match self.layout {
                Some(layout) => exists|samples: Seq<u8>|
                    #[trigger] crate::worker::resize::is_broad(
                        layout,
                        self.page.bytes,
                        self.size,
                        self.display,
                        crate::worker::resize::image_filter_of(self.filter),
                        samples,
                    ) && scaled == crate::worker::pixels::rgba_of(layout, samples),
                None => if self.page.luma {
                    crate::worker::resize::is_resized_luma(
                        self.page.bytes,
                        self.size,
                        self.display,
                        self.filter,
                        scaled,
                    )
                } else {
                    crate::worker::resize::is_resized_rgba(
                        self.page.bytes,
                        self.size,
                        self.display,
                        self.filter,
                        scaled,
                    )
                },
            }
        }
    }

    /// Whether the color profile may do this to pixels: nothing where there is none.
    pub open spec fn recolors_to(
        self,
        scaled: Seq<u8>,
        recolored: Option<Result<Seq<u8>, Seq<char>>>,
    ) -> bool {
        match recolored {
            Some(recolored) => self.icc_profile is Some && crate::worker::metadata::may_recolor(
                scaled,
                self.icc_profile->0,
                recolored,
            ),
            None => self.icc_profile is None,
        }
    }

    /// The page with its final pixels, before it is turned: in the colors of its profile, or with
    /// a notice where that cannot be used.
    pub open spec fn colored_with(
        self,
        scaled: Seq<u8>,
        recolored: Option<Result<Seq<u8>, Seq<char>>>,
    ) -> PageView {
        match recolored {
            None => PageView { bytes: scaled, byte_size: scaled.len() as int, ..self.page },
            Some(Ok(bytes)) => PageView { bytes, byte_size: bytes.len() as int, ..self.page },
            Some(Err(message)) => PageView {
                bytes: scaled,
                byte_size: scaled.len() as int,
                notice: Some("ICC profile could not be applied; assuming sRGB: "@ + message),
                ..self.page
            },
        }
    }

    /// The page that comes of a draft, its pixels resized and its profile applied.
    pub open spec fn finished_with(
        self,
        scaled: Seq<u8>,
        recolored: Option<Result<Seq<u8>, Seq<char>>>,
    ) -> PageView {
        let colored = self.colored_with(scaled, recolored);
        match self.orientation {
            Some(orientation) => crate::worker::metadata::oriented_page(colored, orientation),
            None => colored,
        }
    }

    /// Whether this page may come of a draft.
    pub open spec fn finishes_as(self, page: PageView) -> bool {
        exists|scaled: Seq<u8>, recolored: Option<Result<Seq<u8>, Seq<char>>>|
            self.scales_to(scaled) && self.recolors_to(scaled, recolored) && page
                == #[trigger] self.finished_with(scaled, recolored)
    }
}

/// The message for a draft that asks for a kernel from outside.
pub open spec fn kernel_message() -> Seq<char> {
    "Lanczos2 needs a kernel that this resizer does not have"@
}

/// Resized pixels make up the size at which the page is shown.
pub proof fn lemma_scaled_length(draft: DraftView, scaled: Seq<u8>)
    requires
        draft.wf(),
        draft.scales_to(scaled),
    ensures
        scaled.len() == draft.display.0 * draft.display.1 * draft.page.depth(),
{
    let area = draft.display.0 * draft.display.1;
    if draft.size != draft.display {
        match draft.layout {
            Some(layout) => {
                let samples = choose|samples: Seq<u8>|
                    #[trigger] crate::worker::resize::is_broad(
                        layout,
                        draft.page.bytes,
                        draft.size,
                        draft.display,
                        crate::worker::resize::image_filter_of(draft.filter),
                        samples,
                    ) && scaled == crate::worker::pixels::rgba_of(layout, samples);
                let width = layout.width();
                vstd::arithmetic::div_mod::lemma_div_multiples_vanish(area, width);
                assert(area * width == width * area) by (nonlinear_arith);
            },
            None => {},
        }
    }
}

/// A finished page is sound: its bytes make up its size, whatever the profile did and however it
/// was turned. Its target is that of the draft.
pub proof fn finished_pages_are_sound(draft: DraftView, page: PageView)
    requires
        draft.wf(),
        draft.finishes_as(page),
    ensures
        page.sound(),
        page.luma == draft.page.luma,
        page.target_long_edge == draft.page.target_long_edge,
        page.decode_backend == draft.page.decode_backend,
{
    let (scaled, recolored) = choose|
        scaled: Seq<u8>,
        recolored: Option<Result<Seq<u8>, Seq<char>>>,
    |
        draft.scales_to(scaled) && draft.recolors_to(scaled, recolored) && page
            == #[trigger] draft.finished_with(scaled, recolored);
    lemma_scaled_length(draft, scaled);
    let colored = draft.colored_with(scaled, recolored);
    assert(colored.sound());
    if let Some(orientation) = draft.orientation {
        crate::worker::metadata::turned_pages_stay_sound(colored, orientation);
    }
}

/// A finished page is the draft's: its pixels are the draft's own where they have their size already,
/// and otherwise what a resize with the draft's filter makes of them. A color profile changes nothing
/// but the pixels, or leaves a notice; turning the page exchanges its sides or keeps them.
pub proof fn finished_pages_are_the_drafts(draft: DraftView, page: PageView)
    requires
        draft.wf(),
        draft.finishes_as(page),
        draft.icc_profile is None,
    ensures
        draft.orientation is None ==> {
            &&& page.display == draft.page.display && page.original == draft.page.original
            &&& page.notice == draft.page.notice
            &&& draft.size == draft.display ==> page.bytes == draft.page.bytes
            &&& draft.size != draft.display && draft.layout is None && !draft.page.luma
                ==> crate::worker::resize::is_resized_rgba(
                draft.page.bytes,
                draft.size,
                draft.display,
                draft.filter,
                page.bytes,
            )
            &&& draft.size != draft.display && draft.layout is None && draft.page.luma
                ==> crate::worker::resize::is_resized_luma(
                draft.page.bytes,
                draft.size,
                draft.display,
                draft.filter,
                page.bytes,
            )
        },
        page.notice == draft.page.notice,
        page.display == draft.page.display && page.original == draft.page.original || page.display
            == (draft.page.display.1, draft.page.display.0) && page.original == (
            draft.page.original.1,
            draft.page.original.0,
        ),
        page.luma == draft.page.luma && page.decode_backend == draft.page.decode_backend,
{
    let (scaled, recolored) = choose|
        scaled: Seq<u8>,
        recolored: Option<Result<Seq<u8>, Seq<char>>>,
    |
        draft.scales_to(scaled) && draft.recolors_to(scaled, recolored) && page
            == #[trigger] draft.finished_with(scaled, recolored);
    lemma_scaled_length(draft, scaled);
}

/// A color profile that is applied changes the pixels alone; one that cannot be applied leaves them as
/// they were, with a notice.
pub proof fn profiles_change_the_colors_alone(
    draft: DraftView,
    scaled: Seq<u8>,
    recolored: Result<Seq<u8>, Seq<char>>,
    profile: Seq<u8>,
)
    requires
        draft.icc_profile == Some(profile),
        draft.recolors_to(scaled, Some(recolored)),
    ensures
        ({
            let page = draft.colored_with(scaled, Some(recolored));
            &&& page.display == draft.page.display && page.original == draft.page.original
            &&& page.luma == draft.page.luma && page.decode_backend == draft.page.decode_backend
            &&& page.bytes.len() == scaled.len() && page.byte_size == scaled.len()
            &&& recolored matches Ok(bytes) ==> page.bytes == bytes && page.notice
                == draft.page.notice && (scaled.len() > 0 ==> crate::worker::metadata::srgb_may_make(
                scaled,
                profile,
                recolored,
            ))
            &&& recolored is Err ==> page.bytes == scaled && page.notice is Some
        }),
        !draft.recolors_to(scaled, None),
{
}

/// A page that is complete but for its orientation, as a draft.
pub open spec fn draft_of_page(page: PageView, size: (u32, u32), filter: CpuScaleFilter) -> DraftView {
    DraftView {
        page,
        layout: None,
        size,
        display: size,
        filter,
        icc_profile: None,
        orientation: None,
    }
}

/// Pixels decoded at `size` for a page shown at `display`, or the message why that is too large.
pub open spec fn drafted(
    luma: bool,
    layout: Option<PixelLayout>,
    bytes: Seq<u8>,
    size: (u32, u32),
    original: (u32, u32),
    display: (u32, u32),
    target_long_edge: u32,
    decode_backend: DecodeBackend,
    filter: CpuScaleFilter,
    icc_profile: Option<Seq<u8>>,
) -> Result<DraftView, Seq<char>> {
    let shown = display.0 * display.1 * (if luma {
        1int
    } else {
        4int
    });
    let upload = crate::worker::prepare::upload_bytes(0, display.0, display.1);
    if upload > MAX_DECODED_PAGE_BYTES {
        Err("Prepared page is too large: "@ + text::megabytes(upload) + " MB"@)
    } else {
        Ok(
            DraftView {
                page: PageView {
                    luma,
                    bytes,
                    original: (original.0 as int, original.1 as int),
                    display: (display.0 as int, display.1 as int),
                    byte_size: shown,
                    target_long_edge,
                    decode_backend,
                    notice: None,
                },
                layout,
                size,
                display,
                filter,
                icc_profile,
                orientation: None,
            },
        )
    }
}

/// A page is drafted wherever it is within the budget of one page at the size at which it is shown,
/// and the draft holds what it was given.
pub proof fn drafts_hold_what_they_are_given(
    luma: bool,
    layout: Option<PixelLayout>,
    bytes: Seq<u8>,
    size: (u32, u32),
    original: (u32, u32),
    display: (u32, u32),
    target_long_edge: u32,
    decode_backend: DecodeBackend,
    filter: CpuScaleFilter,
    icc_profile: Option<Seq<u8>>,
)
    ensures
        ({
            let draft = drafted(
                luma,
                layout,
                bytes,
                size,
                original,
                display,
                target_long_edge,
                decode_backend,
                filter,
                icc_profile,
            );
            &&& draft is Ok <==> 4 * (display.0 * display.1) <= 268_435_456
            &&& draft matches Ok(draft) ==> {
                &&& draft.page.bytes == bytes && draft.page.luma == luma
                &&& draft.page.original == (original.0 as int, original.1 as int)
                &&& draft.page.display == (display.0 as int, display.1 as int)
                &&& draft.page.target_long_edge == target_long_edge
                &&& draft.page.decode_backend == decode_backend && draft.page.notice is None
                &&& draft.size == size && draft.display == display && draft.layout == layout
                &&& draft.filter == filter && draft.icc_profile == icc_profile
                &&& draft.orientation is None
            }
        }),
{
    assert(display.0 * display.1 >= 0) by (nonlinear_arith)
        requires
            display.0 >= 0,
            display.1 >= 0,
    ;
}

/// Drafting is assembling a page: where the pixels have their final size already and no profile is
/// applied, the assembled page is what comes of the draft, and it is refused with the same message.
pub proof fn draft_at_size_is_the_assembled_page(
    luma: bool,
    bytes: Seq<u8>,
    original: (u32, u32),
    display: (u32, u32),
    target_long_edge: u32,
    decode_backend: DecodeBackend,
    filter: CpuScaleFilter,
)
    requires
        bytes.len() == display.0 * display.1 * (if luma {
            1int
        } else {
            4int
        }),
        bytes.len() <= usize::MAX,
    ensures
        ({
            let drafted = drafted(
                luma,
                None,
                bytes,
                display,
                original,
                display,
                target_long_edge,
                decode_backend,
                filter,
                None,
            );
            let assembled = crate::worker::prepare::assembled_page(
                luma,
                bytes,
                original,
                display,
                target_long_edge,
                decode_backend,
            );
            match (drafted, assembled) {
                (Ok(draft), Ok(page)) => forall|other: PageView|
                    #[trigger] draft.finishes_as(other) <==> other == page,
                (Err(left), Err(right)) => left == right,
                _ => false,
            }
        }),
{
    let drafted = drafted(
        luma,
        None,
        bytes,
        display,
        original,
        display,
        target_long_edge,
        decode_backend,
        filter,
        None,
    );
    if let Ok(draft) = drafted {
        assert(draft.finishes_as(draft.finished_with(bytes, None)));
    }
}

/// Drafts a page of decoded pixels.
pub fn draft_page(
    luma: bool,
    layout: Option<PixelLayout>,
    bytes: Vec<u8>,
    size: (u32, u32),
    original: (u32, u32),
    display: (u32, u32),
    target_long_edge: u32,
    decode_backend: DecodeBackend,
    filter: CpuScaleFilter,
    icc_profile: Option<Vec<u8>>,
) -> (draft: Result<PageDraft, String>)
    requires
        bytes@.len() == size.0 * size.1 * match layout {
            Some(layout) => layout.width(),
            None => if luma {
                1int
            } else {
                4int
            },
        },
        layout is Some ==> size != display && !luma,
        size.0 * size.1 * 4 <= usize::MAX,
        display.0 * display.1 * 4 <= MAX_DECODED_PAGE_BYTES ==> crate::worker::resize::countable(
            size,
            display,
        ),
        icc_profile is Some ==> !luma,
    ensures
        draft_outcome(draft) == drafted(
            luma,
            layout,
            bytes@,
            size,
            original,
            display,
            target_long_edge,
            decode_backend,
            filter,
            match icc_profile {
                Some(profile) => Some(profile@),
                None => None,
            },
        ),
        draft matches Ok(draft) ==> draft@.wf(),
{
    proof {
        let a = display.0 * display.1;
        assert(a * 4 >= a) by (nonlinear_arith)
            requires
                a == display.0 * display.1,
        ;
    }
    let upload: usize = match display.0.checked_mul(display.1) {
        Some(count) => match count.checked_mul(4) {
            Some(bytes) => bytes as usize,
            None => usize::MAX,
        },
        None => usize::MAX,
    };
    if upload > MAX_DECODED_PAGE_BYTES {
        let mut message = "Prepared page is too large: ".to_owned();
        text::push_megabytes(&mut message, upload);
        message.append(" MB");
        return Err(message);
    }
    let byte_size: usize = if luma {
        upload / 4
    } else {
        upload
    };
    let shared = shared_bytes(bytes);
    let pixels = if luma {
        PagePixels::Luma(shared)
    } else {
        PagePixels::Rgba(shared)
    };
    Ok(
        PageDraft {
            page: PreparedPage {
                pixels,
                original_width: original.0 as usize,
                original_height: original.1 as usize,
                display_width: display.0 as usize,
                display_height: display.1 as usize,
                byte_size,
                target_long_edge,
                decode_backend,
                notice: None,
            },
            layout,
            size,
            display,
            filter,
            icc_profile,
            orientation: None,
        },
    )
}

/// Pixels that a caller with a kernel of its own may resize.
pub struct KernelRequest {
    pub luma: bool,
    pub bytes: Vec<u8>,
    pub size: (u32, u32),
    pub display: (u32, u32),
}

impl PageDraft {
    /// Whether the pixels are to be resized with a kernel that the fast resizer does not have.
    fn asks_for_kernel(&self) -> (asks: bool)
        ensures
            asks == self@.needs_kernel(),
    {
        (self.size.0 != self.display.0 || self.size.1 != self.display.1) && self.layout.is_none()
            && fast_kernel(self.filter).is_none()
    }

    /// The pixels that are to be resized with a kernel that the fast resizer does not have.
    pub fn kernel_request(&self) -> (request: Option<KernelRequest>)
        ensures
            match request {
                Some(request) => {
                    &&& self@.needs_kernel()
                    &&& request.luma == self@.page.luma
                    &&& request.bytes@ == self@.page.bytes
                    &&& request.size == self.size
                    &&& request.display == self.display
                },
                None => !self@.needs_kernel(),
            },
    {
        if !self.asks_for_kernel() {
            return None;
        }
        Some(
            KernelRequest {
                luma: self.page.pixels.is_luma(),
                bytes: vstd::slice::slice_to_vec(self.page.pixels.as_slice()),
                size: self.size,
                display: self.display,
            },
        )
    }

    /// The draft with pixels, gray or RGBA, that were resized elsewhere; unchanged where they do not
    /// make up the size at which the page is shown.
    pub fn with_resized(self, resized: Vec<u8>) -> (draft: PageDraft)
        requires
            self@.wf(),
        ensures
            draft@ == if self.size != self.display && resized@.len() == self.display.0
                * self.display.1 * self@.page.depth() {
                DraftView {
                    page: PageView { bytes: resized@, ..self@.page },
                    layout: None,
                    size: self.display,
                    ..self@
                }
            } else {
                self@
            },
            draft@.wf(),
    {
        if self.size.0 == self.display.0 && self.size.1 == self.display.1 {
            return self;
        }
        let luma = self.page.pixels.is_luma();
        let ghost count = self.display.0 * self.display.1;
        assert(count * 4 >= count);
        let pixels: usize = self.display.0 as usize * self.display.1 as usize;
        let expected: usize = if luma {
            pixels
        } else {
            pixels * 4
        };
        if resized.len() != expected {
            return self;
        }
        let shared = shared_bytes(resized);
        PageDraft {
            page: PreparedPage {
                pixels: if luma {
                    PagePixels::Luma(shared)
                } else {
                    PagePixels::Rgba(shared)
                },
                ..self.page
            },
            layout: None,
            size: self.display,
            ..self
        }
    }

    /// The draft with another notice.
    pub fn with_notice(self, notice: String) -> (draft: PageDraft)
        requires
            self@.wf(),
        ensures
            draft@ == (DraftView {
                page: PageView { notice: Some(notice@), ..self@.page },
                ..self@
            }),
            draft@.wf(),
    {
        PageDraft { page: PreparedPage { notice: Some(notice), ..self.page }, ..self }
    }

    /// The draft of a page that is to be turned.
    pub fn with_orientation(self, orientation: Option<Orientation>) -> (draft: PageDraft)
        requires
            self@.wf(),
        ensures
            draft@ == (DraftView { orientation, ..self@ }),
            draft@.wf(),
    {
        PageDraft { orientation, ..self }
    }

    /// The page of a draft whose pixels were resized and, where it has a profile, recolored: turned,
    /// and with a notice where the profile could not be used.
    pub fn finish_with(self, scaled: Vec<u8>, recolored: Option<Result<Vec<u8>, String>>) -> (page:
        PreparedPage)
        ensures
            page@ == self@.finished_with(
                scaled@,
                match recolored {
                    Some(Ok(bytes)) => Some(Ok(bytes@)),
                    Some(Err(message)) => Some(Err(message@)),
                    None => None,
                },
            ),
    {
        let luma = self.page.pixels.is_luma();
        let mut notice = self.page.notice;
        let bytes = match recolored {
            Some(Ok(bytes)) => bytes,
            Some(Err(error)) => {
                let mut message = "ICC profile could not be applied; assuming sRGB: ".to_owned();
                message.append(error.as_str());
                notice = Some(message);
                scaled
            },
            None => scaled,
        };
        let byte_size: usize = bytes.len();
        let shared = shared_bytes(bytes);
        let page = PreparedPage {
            pixels: if luma {
                PagePixels::Luma(shared)
            } else {
                PagePixels::Rgba(shared)
            },
            byte_size,
            notice,
            ..self.page
        };
        match self.orientation {
            Some(orientation) => apply_exif_orientation_to_page(page, orientation),
            None => page,
        }
    }

    /// The page at its final size, in its colors, and turned; nothing where the pixels need a kernel
    /// from outside.
    pub fn finish(self) -> (page: Result<PreparedPage, String>)
        requires
            self@.wf(),
        ensures
            match page {
                Ok(page) => !self@.needs_kernel() && self@.finishes_as(page@) && page@.sound(),
                Err(message) => self@.needs_kernel() && message@ == kernel_message(),
            },
    {
        if self.asks_for_kernel() {
            return Err("Lanczos2 needs a kernel that this resizer does not have".to_owned());
        }
        let ghost view = self@;
        let luma = self.page.pixels.is_luma();
        let bytes = vstd::slice::slice_to_vec(self.page.pixels.as_slice());
        let mut scaled: Vec<u8> = if self.size.0 == self.display.0 && self.size.1
            == self.display.1 {
            bytes
        } else {
            match self.layout {
                Some(layout) => {
                    let samples = resize_fallback(
                        layout,
                        bytes,
                        self.size,
                        self.display,
                        self.filter,
                    );
                    to_rgba(layout, samples.as_slice())
                },
                None => {
                    assert(self.size.0 * self.size.1 * 1 == self.size.0 * self.size.1)
                        by (nonlinear_arith);
                    let resized = if luma {
                        resize_luma(bytes, self.size, self.display, self.filter)
                    } else {
                        resize_rgba(bytes, self.size, self.display, self.filter)
                    };
                    match resized {
                        Some(resized) => resized,
                        None => Vec::new(),
                    }
                },
            }
        };
        assert(view.scales_to(scaled@));
        let ghost before = scaled@;
        proof {
            lemma_scaled_length(view, before);
        }
        let outcome: Option<Result<(), String>> = match &self.icc_profile {
            Some(profile) => Some(apply_embedded_icc_to_rgba(&mut scaled, profile.as_slice())),
            None => None,
        };
        let ghost recolored: Option<Result<Seq<u8>, Seq<char>>> = if outcome is None {
            None
        } else if outcome->0 is Ok {
            Some(Ok(scaled@))
        } else {
            Some(Err(outcome->0->Err_0@))
        };
        assert(view.recolors_to(before, recolored));
        let page = match outcome {
            Some(Ok(_)) => self.finish_with(Vec::new(), Some(Ok(scaled))),
            Some(Err(message)) => self.finish_with(scaled, Some(Err(message))),
            None => self.finish_with(scaled, None),
        };
        assert(page@ == view.finished_with(before, recolored));
        proof {
            finished_pages_are_sound(view, page@);
        }
        Ok(page)
    }
}

/// A complete page as a draft.
pub fn draft_from_page(page: PreparedPage, display: (u32, u32), filter: CpuScaleFilter) -> (draft:
    PageDraft)
    requires
        page@.display == (display.0 as int, display.1 as int),
        page@.sound(),
    ensures
        draft@ == draft_of_page(page@, display, filter),
        draft@.wf(),
{
    PageDraft {
        page,
        layout: None,
        size: display,
        display,
        filter,
        icc_profile: None,
        orientation: None,
    }
}

} // verus!
