//! Pictures as the window toolkit draws them: RGBA pixels whose colours are scaled by their alpha.
use vstd::prelude::*;

verus! {

/// What `egui::Color32::from_rgba_unmultiplied` makes of a pixel.
pub uninterp spec fn premultiplied(r: u8, g: u8, b: u8, a: u8) -> Seq<u8>;

/// What `egui::Color32::to_srgba_unmultiplied` makes of a pixel.
pub uninterp spec fn unmultiplied(r: u8, g: u8, b: u8, a: u8) -> Seq<u8>;

/// `egui::Color32::from_rgba_unmultiplied`, and the four channels of its result: the alpha stays, a
/// transparent pixel becomes all zero, and an opaque one keeps its colours.
#[verifier::external_body]
fn premultiply_pixel(r: u8, g: u8, b: u8, a: u8) -> (pixel: [u8; 4])
    ensures
        pixel@ == premultiplied(r, g, b, a),
        pixel@[3] == a,
        a == 0 ==> pixel@ == seq![0u8, 0u8, 0u8, 0u8],
        a == 255 ==> pixel@ == seq![r, g, b, a],
{
    egui::Color32::from_rgba_unmultiplied(r, g, b, a).to_array()
}

/// `egui::Color32::to_srgba_unmultiplied` of the pixel with these four channels: the alpha stays,
/// and a pixel that is transparent or opaque keeps its channels.
#[verifier::external_body]
fn unmultiply_pixel(r: u8, g: u8, b: u8, a: u8) -> (pixel: [u8; 4])
    ensures
        pixel@ == unmultiplied(r, g, b, a),
        pixel@[3] == a,
        a == 0 || a == 255 ==> pixel@ == seq![r, g, b, a],
{
    egui::Color32::from_rgba_premultiplied(r, g, b, a).to_srgba_unmultiplied()
}

/// A picture of premultiplied pixels.
#[derive(Debug, Clone)]
pub struct ColorImage {
    pub size: [usize; 2],
    pub pixels: Vec<u8>,
}

/// The channels of the pixel at an index, changed by `change`.
pub open spec fn channel_of(
    bytes: Seq<u8>,
    change: spec_fn(u8, u8, u8, u8) -> Seq<u8>,
    i: int,
) -> u8 {
    let at = i - i % 4;
    change(bytes[at], bytes[at + 1], bytes[at + 2], bytes[at + 3])[i % 4]
}

/// Each pixel changed by `change`.
pub open spec fn changed(bytes: Seq<u8>, change: spec_fn(u8, u8, u8, u8) -> Seq<u8>) -> Seq<u8> {
    Seq::new(bytes.len(), |i: int| channel_of(bytes, change, i))
}

/// RGBA pixels, premultiplied.
pub open spec fn premultiplied_pixels(rgba: Seq<u8>) -> Seq<u8> {
    changed(rgba, |r: u8, g: u8, b: u8, a: u8| premultiplied(r, g, b, a))
}

/// Premultiplied pixels as RGBA.
pub open spec fn unmultiplied_pixels(pixels: Seq<u8>) -> Seq<u8> {
    changed(pixels, |r: u8, g: u8, b: u8, a: u8| unmultiplied(r, g, b, a))
}

/// Each pixel is changed on its own, from its own red, green, blue and alpha, and stays in its place.
pub proof fn pixels_are_changed_one_by_one(bytes: Seq<u8>, j: int, c: int)
    requires
        0 <= j,
        4 * j + 3 < bytes.len(),
        0 <= c < 4,
    ensures
        premultiplied_pixels(bytes).len() == bytes.len(),
        premultiplied_pixels(bytes)[4 * j + c] == premultiplied(
            bytes[4 * j],
            bytes[4 * j + 1],
            bytes[4 * j + 2],
            bytes[4 * j + 3],
        )[c],
        unmultiplied_pixels(bytes).len() == bytes.len(),
        unmultiplied_pixels(bytes)[4 * j + c] == unmultiplied(
            bytes[4 * j],
            bytes[4 * j + 1],
            bytes[4 * j + 2],
            bytes[4 * j + 3],
        )[c],
{
    assert((4 * j + c) % 4 == c);
}

/// Whether every pixel is opaque.
pub open spec fn is_opaque(bytes: Seq<u8>) -> bool {
    forall|i: int| 0 <= i < bytes.len() && i % 4 == 3 ==> #[trigger] bytes[i] == 255
}

impl ColorImage {
    /// Whether the pixels make up a picture of the size.
    pub open spec fn wf(self) -> bool {
        self.pixels@.len() == self.size[0] * self.size[1] * 4
    }

    /// The picture of the given RGBA pixels. An opaque picture keeps its bytes.
    pub fn from_rgba_unmultiplied(size: [usize; 2], rgba: &[u8]) -> (image: ColorImage)
        requires
            rgba@.len() == size[0] * size[1] * 4,
        ensures
            image.wf(),
            image.size == size,
            image.pixels@ == premultiplied_pixels(rgba@),
            is_opaque(rgba@) ==> image.pixels@ == rgba@,
    {
        let ghost change = |r: u8, g: u8, b: u8, a: u8| premultiplied(r, g, b, a);
        let mut pixels: Vec<u8> = Vec::new();
        let mut i: usize = 0;
        while i < rgba.len()
            invariant
                i <= rgba@.len(),
                i % 4 == 0,
                rgba@.len() % 4 == 0,
                change == (|r: u8, g: u8, b: u8, a: u8| premultiplied(r, g, b, a)),
                pixels@.len() == i,
                forall|k: int|
                    0 <= k < i ==> #[trigger] pixels@[k] == channel_of(rgba@, change, k),
                is_opaque(rgba@) ==> forall|k: int| 0 <= k < i ==> #[trigger] pixels@[k] == rgba@[k],
            decreases rgba.len() - i,
        {
            let pixel = premultiply_pixel(rgba[i], rgba[i + 1], rgba[i + 2], rgba[i + 3]);
            proof {
                assert(pixel@ == change(
                    rgba@[i as int],
                    rgba@[i + 1],
                    rgba@[i + 2],
                    rgba@[i + 3],
                ));
                assert((i + 3) % 4 == 3);
            }
            pixels.push(pixel[0]);
            pixels.push(pixel[1]);
            pixels.push(pixel[2]);
            pixels.push(pixel[3]);
            i = i + 4;
        }
        assert(pixels@ =~= premultiplied_pixels(rgba@));
        assert(is_opaque(rgba@) ==> pixels@ =~= rgba@);
        ColorImage { size, pixels }
    }

    /// The RGBA pixels of a picture. An opaque picture keeps its bytes.
    pub fn to_rgba(&self) -> (rgba: Vec<u8>)
        requires
            self.wf(),
        ensures
            rgba@ == unmultiplied_pixels(self.pixels@),
            is_opaque(self.pixels@) ==> rgba@ == self.pixels@,
    {
        let ghost change = |r: u8, g: u8, b: u8, a: u8| unmultiplied(r, g, b, a);
        let ghost bytes = self.pixels@;
        let mut rgba: Vec<u8> = Vec::new();
        let mut i: usize = 0;
        while i < self.pixels.len()
            invariant
                bytes == self.pixels@,
                i <= bytes.len(),
                i % 4 == 0,
                bytes.len() % 4 == 0,
                change == (|r: u8, g: u8, b: u8, a: u8| unmultiplied(r, g, b, a)),
                rgba@.len() == i,
                forall|k: int| 0 <= k < i ==> #[trigger] rgba@[k] == channel_of(bytes, change, k),
                is_opaque(bytes) ==> forall|k: int| 0 <= k < i ==> #[trigger] rgba@[k] == bytes[k],
            decreases self.pixels.len() - i,
        {
            let pixel = unmultiply_pixel(
                self.pixels[i],
                self.pixels[i + 1],
                self.pixels[i + 2],
                self.pixels[i + 3],
            );
            proof {
                assert(pixel@ == change(bytes[i as int], bytes[i + 1], bytes[i + 2], bytes[i + 3]));
                assert((i + 3) % 4 == 3);
            }
            rgba.push(pixel[0]);
            rgba.push(pixel[1]);
            rgba.push(pixel[2]);
            rgba.push(pixel[3]);
            i = i + 4;
        }
        assert(rgba@ =~= unmultiplied_pixels(bytes));
        assert(is_opaque(bytes) ==> rgba@ =~= bytes);
        rgba
    }
}

} // verus!
