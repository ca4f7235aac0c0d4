//! Settings that the decoding and upscaling logic reads.
use vstd::prelude::*;

verus! {

/// Filters with which a page is resized on the CPU.
#[derive(Debug, Clone, Copy, PartialEq, Eq, Hash, Structural)]
pub enum CpuScaleFilter {
    Nearest,
    Box,
    Bilinear,
    Hamming,
    CatmullRom,
    Mitchell,
    Gaussian,
    Lanczos2,
    Lanczos3,
}

impl CpuScaleFilter {
    /// The filter's name in cache keys.
    pub open spec fn token_spec(self) -> Seq<char> {
        match self {
            CpuScaleFilter::Nearest => "nearest"@,
            CpuScaleFilter::Box => "box"@,
            CpuScaleFilter::Bilinear => "bilinear"@,
            CpuScaleFilter::Hamming => "hamming"@,
            CpuScaleFilter::CatmullRom => "catmull-rom"@,
            CpuScaleFilter::Mitchell => "mitchell"@,
            CpuScaleFilter::Gaussian => "gaussian"@,
            CpuScaleFilter::Lanczos2 => "lanczos2"@,
            CpuScaleFilter::Lanczos3 => "lanczos3"@,
        }
    }

    /// The filter's name in cache keys.
    pub fn token(self) -> (token: &'static str)
        ensures
            token@ == self.token_spec(),
    {
        match self {
            CpuScaleFilter::Nearest => "nearest",
            CpuScaleFilter::Box => "box",
            CpuScaleFilter::Bilinear => "bilinear",
            CpuScaleFilter::Hamming => "hamming",
            CpuScaleFilter::CatmullRom => "catmull-rom",
            CpuScaleFilter::Mitchell => "mitchell",
            CpuScaleFilter::Gaussian => "gaussian",
            CpuScaleFilter::Lanczos2 => "lanczos2",
            CpuScaleFilter::Lanczos3 => "lanczos3",
        }
    }
}

/// A decoder that the user may ask for.
#[derive(Debug, Clone, Copy, PartialEq, Eq, Hash, Structural)]
pub enum DecoderPreference {
    Default,
    ImageCrate,
    ZuneJpeg,
    PngCrate,
    ZunePng,
    ImageWebp,
    LibWebp,
    GifCrate,
    BmpFastPath,
    IcoFastPath,
    LibAvifDav1d,
}

impl DecoderPreference {
    /// The two-letter code of the decoder in cache keys.
    pub open spec fn code_spec(self) -> Seq<char> {
        match self {
            DecoderPreference::Default => "df"@,
            DecoderPreference::ImageCrate => "im"@,
            DecoderPreference::ZuneJpeg => "zj"@,
            DecoderPreference::PngCrate => "pc"@,
            DecoderPreference::ZunePng => "zp"@,
            DecoderPreference::ImageWebp => "iw"@,
            DecoderPreference::LibWebp => "lw"@,
            DecoderPreference::GifCrate => "gc"@,
            DecoderPreference::BmpFastPath => "bf"@,
            DecoderPreference::IcoFastPath => "if"@,
            DecoderPreference::LibAvifDav1d => "la"@,
        }
    }

    /// The two-letter code of the decoder in cache keys.
    pub fn code(self) -> (code: &'static str)
        ensures
            code@ == self.code_spec(),
    {
        match self {
            DecoderPreference::Default => "df",
            DecoderPreference::ImageCrate => "im",
            DecoderPreference::ZuneJpeg => "zj",
            DecoderPreference::PngCrate => "pc",
            DecoderPreference::ZunePng => "zp",
            DecoderPreference::ImageWebp => "iw",
            DecoderPreference::LibWebp => "lw",
            DecoderPreference::GifCrate => "gc",
            DecoderPreference::BmpFastPath => "bf",
            DecoderPreference::IcoFastPath => "if",
            DecoderPreference::LibAvifDav1d => "la",
        }
    }
}

/// The decoder asked for, per file format.
#[derive(Debug, Clone, Copy, PartialEq, Eq, Hash, Structural)]
pub struct DecoderPreferences {
    pub jpeg: DecoderPreference,
    pub png: DecoderPreference,
    pub webp: DecoderPreference,
    pub gif: DecoderPreference,
    pub bmp: DecoderPreference,
    pub ico: DecoderPreference,
    pub avif: DecoderPreference,
}

impl Default for DecoderPreferences {
    fn default() -> (preferences: Self)
        ensures
            preferences.jpeg == DecoderPreference::Default,
            preferences.png == DecoderPreference::Default,
            preferences.webp == DecoderPreference::Default,
            preferences.gif == DecoderPreference::Default,
            preferences.bmp == DecoderPreference::Default,
            preferences.ico == DecoderPreference::Default,
            preferences.avif == DecoderPreference::Default,
    {
        DecoderPreferences {
            jpeg: DecoderPreference::Default,
            png: DecoderPreference::Default,
            webp: DecoderPreference::Default,
            gif: DecoderPreference::Default,
            bmp: DecoderPreference::Default,
            ico: DecoderPreference::Default,
            avif: DecoderPreference::Default,
        }
    }
}

impl DecoderPreferences {
    /// The preferences in cache keys: the codes of the formats, one after the other.
    pub open spec fn cache_token_spec(self) -> Seq<char> {
        self.jpeg.code_spec()
            + self.png.code_spec()
            + self.webp.code_spec()
            + self.gif.code_spec()
            + self.bmp.code_spec()
            + self.ico.code_spec()
            + self.avif.code_spec()
    }

    /// The preferences in cache keys: the codes of the formats, one after the other.
    pub fn cache_token(self) -> (token: String)
        ensures
            token@ == self.cache_token_spec(),
    {
        let mut token = self.jpeg.code().to_owned();
        token.append(self.png.code());
        token.append(self.webp.code());
        token.append(self.gif.code());
        token.append(self.bmp.code());
        token.append(self.ico.code());
        token.append(self.avif.code());
        token
    }
}

/// Filters with which the quality scan resizes its reference pictures.
#[derive(Debug, Clone, Copy, PartialEq, Eq, Hash, Structural)]
pub enum ResizeFilter {
    Bicubic,
    Lanczos3,
    FastTriangle,
    Nearest,
}

/// The renderer that the window host starts with.
#[derive(Debug, Clone, Copy, PartialEq, Eq, Hash, Structural)]
pub enum RendererMode {
    LowMemoryGlow,
    Wgpu,
}

/// Where the window was when it was last closed, in whole points and pixels.
#[derive(Debug, Clone)]
pub struct WindowPlacement {
    pub inner_size: Option<[u32; 2]>,
    pub outer_position: Option<[i32; 2]>,
    pub outer_position_px: Option<[i32; 2]>,
    pub normal_rect_px: Option<[i32; 4]>,
    pub maximized: bool,
}

/// An upscaler that runs on the GPU.
#[derive(Debug, Clone, Copy, PartialEq, Eq, Hash, Structural)]
pub enum WgpuUpscaleMethod {
    WgslFsrStyle,
    WgslFsr1Easu,
    WgslFsr1EasuRcas,
    WgslAnime4kV32CnnX2S,
    WgslAnime4kV32CnnX2M,
    WgslArtcnnC4F16,
    WgslArtcnnC4F16Dn,
    WgslArtcnnC4F16Ds,
    WgslArtcnnC4F32,
    WgslArtcnnC4F32Dn,
    WgslArtcnnC4F32Ds,
    WgslSrLabSpanX2,
    NvidiaNis,
    WgslAcnetF8B4Luma,
    WgslAcnetF8B4BoxLuma,
    WgslAcnetF8B4HdnLuma,
    WgslAcnetF8B4BoxHdnLuma,
    CunnyVeryfastNvl,
    CunnyVeryfastSoft,
    CunnyFasterNvl,
    CunnyFasterSoft,
    CunnyFasterDs,
    CunnyFastNvl,
    CunnyFastSoft,
    CunnyFastDs,
    Cunny2x12Soft,
    Cunny2x12Ds,
    Cunny3x12Nvl,
    Cunny3x12Soft,
    Cunny3x12Ds,
    Cunny4x12Nvl,
    Cunny4x12Soft,
    Cunny4x12Ds,
    Cunny4x16Nvl,
    Cunny4x16Soft,
    Cunny4x16Ds,
    Cunny4x24Nvl,
    Cunny4x24Soft,
    Cunny4x24Ds,
    Cunny4x32Nvl,
    Cunny4x32Soft,
    Cunny4x32Ds,
    Cunny8x32Nvl,
    Cunny8x32Ds,
}

impl WgpuUpscaleMethod {
    /// The upscaler's name in reports and messages.
    pub open spec fn label_spec(self) -> Seq<char> {
        match self {
            WgpuUpscaleMethod::WgslFsrStyle => "WGSL FSR style"@,
            WgpuUpscaleMethod::WgslFsr1Easu => "WGSL FSR1 EASU"@,
            WgpuUpscaleMethod::WgslFsr1EasuRcas => "WGSL FSR1 EASU+RCAS"@,
            WgpuUpscaleMethod::WgslAnime4kV32CnnX2S => "Anime4K v3.2 CNN x2 S"@,
            WgpuUpscaleMethod::WgslAnime4kV32CnnX2M => "Anime4K v3.2 CNN x2 M"@,
            WgpuUpscaleMethod::WgslArtcnnC4F16 => "ArtCNN C4F16"@,
            WgpuUpscaleMethod::WgslArtcnnC4F16Dn => "ArtCNN C4F16 DN"@,
            WgpuUpscaleMethod::WgslArtcnnC4F16Ds => "ArtCNN C4F16 DS"@,
            WgpuUpscaleMethod::WgslArtcnnC4F32 => "ArtCNN C4F32"@,
            WgpuUpscaleMethod::WgslArtcnnC4F32Dn => "ArtCNN C4F32 DN"@,
            WgpuUpscaleMethod::WgslArtcnnC4F32Ds => "ArtCNN C4F32 DS"@,
            WgpuUpscaleMethod::WgslSrLabSpanX2 => "SR Lab SPAN x2"@,
            WgpuUpscaleMethod::NvidiaNis => "NVIDIA Image Scaling"@,
            WgpuUpscaleMethod::WgslAcnetF8B4Luma => "ACNet F8B4 Luma"@,
            WgpuUpscaleMethod::WgslAcnetF8B4BoxLuma => "ACNet F8B4 Box Luma"@,
            WgpuUpscaleMethod::WgslAcnetF8B4HdnLuma => "ACNet F8B4 HDN Luma"@,
            WgpuUpscaleMethod::WgslAcnetF8B4BoxHdnLuma => "ACNet F8B4 Box HDN Luma"@,
            WgpuUpscaleMethod::CunnyVeryfastNvl => "CuNNy veryfast NVL"@,
            WgpuUpscaleMethod::CunnyVeryfastSoft => "CuNNy veryfast SOFT"@,
            WgpuUpscaleMethod::CunnyFasterNvl => "CuNNy faster NVL"@,
            WgpuUpscaleMethod::CunnyFasterSoft => "CuNNy faster SOFT"@,
            WgpuUpscaleMethod::CunnyFasterDs => "CuNNy faster DS"@,
            WgpuUpscaleMethod::CunnyFastNvl => "CuNNy fast NVL"@,
            WgpuUpscaleMethod::CunnyFastSoft => "CuNNy fast SOFT"@,
            WgpuUpscaleMethod::CunnyFastDs => "CuNNy fast DS"@,
            WgpuUpscaleMethod::Cunny2x12Soft => "CuNNy 2x12 SOFT"@,
            WgpuUpscaleMethod::Cunny2x12Ds => "CuNNy 2x12 DS"@,
            WgpuUpscaleMethod::Cunny3x12Nvl => "CuNNy 3x12 NVL"@,
            WgpuUpscaleMethod::Cunny3x12Soft => "CuNNy 3x12 SOFT"@,
            WgpuUpscaleMethod::Cunny3x12Ds => "CuNNy 3x12 DS"@,
            WgpuUpscaleMethod::Cunny4x12Nvl => "CuNNy 4x12 NVL"@,
            WgpuUpscaleMethod::Cunny4x12Soft => "CuNNy 4x12 SOFT"@,
            WgpuUpscaleMethod::Cunny4x12Ds => "CuNNy 4x12 DS"@,
            WgpuUpscaleMethod::Cunny4x16Nvl => "CuNNy 4x16 NVL"@,
            WgpuUpscaleMethod::Cunny4x16Soft => "CuNNy 4x16 SOFT"@,
            WgpuUpscaleMethod::Cunny4x16Ds => "CuNNy 4x16 DS"@,
            WgpuUpscaleMethod::Cunny4x24Nvl => "CuNNy 4x24 NVL"@,
            WgpuUpscaleMethod::Cunny4x24Soft => "CuNNy 4x24 SOFT"@,
            WgpuUpscaleMethod::Cunny4x24Ds => "CuNNy 4x24 DS"@,
            WgpuUpscaleMethod::Cunny4x32Nvl => "CuNNy 4x32 NVL"@,
            WgpuUpscaleMethod::Cunny4x32Soft => "CuNNy 4x32 SOFT"@,
            WgpuUpscaleMethod::Cunny4x32Ds => "CuNNy 4x32 DS"@,
            WgpuUpscaleMethod::Cunny8x32Nvl => "CuNNy 8x32 NVL"@,
            WgpuUpscaleMethod::Cunny8x32Ds => "CuNNy 8x32 DS"@,
        }
    }

    /// The upscaler's name in reports and messages.
    pub fn label(self) -> (label: &'static str)
        ensures
            label@ == self.label_spec(),
    {
        match self {
            WgpuUpscaleMethod::WgslFsrStyle => "WGSL FSR style",
            WgpuUpscaleMethod::WgslFsr1Easu => "WGSL FSR1 EASU",
            WgpuUpscaleMethod::WgslFsr1EasuRcas => "WGSL FSR1 EASU+RCAS",
            WgpuUpscaleMethod::WgslAnime4kV32CnnX2S => "Anime4K v3.2 CNN x2 S",
            WgpuUpscaleMethod::WgslAnime4kV32CnnX2M => "Anime4K v3.2 CNN x2 M",
            WgpuUpscaleMethod::WgslArtcnnC4F16 => "ArtCNN C4F16",
            WgpuUpscaleMethod::WgslArtcnnC4F16Dn => "ArtCNN C4F16 DN",
            WgpuUpscaleMethod::WgslArtcnnC4F16Ds => "ArtCNN C4F16 DS",
            WgpuUpscaleMethod::WgslArtcnnC4F32 => "ArtCNN C4F32",
            WgpuUpscaleMethod::WgslArtcnnC4F32Dn => "ArtCNN C4F32 DN",
            WgpuUpscaleMethod::WgslArtcnnC4F32Ds => "ArtCNN C4F32 DS",
            WgpuUpscaleMethod::WgslSrLabSpanX2 => "SR Lab SPAN x2",
            WgpuUpscaleMethod::NvidiaNis => "NVIDIA Image Scaling",
            WgpuUpscaleMethod::WgslAcnetF8B4Luma => "ACNet F8B4 Luma",
            WgpuUpscaleMethod::WgslAcnetF8B4BoxLuma => "ACNet F8B4 Box Luma",
            WgpuUpscaleMethod::WgslAcnetF8B4HdnLuma => "ACNet F8B4 HDN Luma",
            WgpuUpscaleMethod::WgslAcnetF8B4BoxHdnLuma => "ACNet F8B4 Box HDN Luma",
            WgpuUpscaleMethod::CunnyVeryfastNvl => "CuNNy veryfast NVL",
            WgpuUpscaleMethod::CunnyVeryfastSoft => "CuNNy veryfast SOFT",
            WgpuUpscaleMethod::CunnyFasterNvl => "CuNNy faster NVL",
            WgpuUpscaleMethod::CunnyFasterSoft => "CuNNy faster SOFT",
            WgpuUpscaleMethod::CunnyFasterDs => "CuNNy faster DS",
            WgpuUpscaleMethod::CunnyFastNvl => "CuNNy fast NVL",
            WgpuUpscaleMethod::CunnyFastSoft => "CuNNy fast SOFT",
            WgpuUpscaleMethod::CunnyFastDs => "CuNNy fast DS",
            WgpuUpscaleMethod::Cunny2x12Soft => "CuNNy 2x12 SOFT",
            WgpuUpscaleMethod::Cunny2x12Ds => "CuNNy 2x12 DS",
            WgpuUpscaleMethod::Cunny3x12Nvl => "CuNNy 3x12 NVL",
            WgpuUpscaleMethod::Cunny3x12Soft => "CuNNy 3x12 SOFT",
            WgpuUpscaleMethod::Cunny3x12Ds => "CuNNy 3x12 DS",
            WgpuUpscaleMethod::Cunny4x12Nvl => "CuNNy 4x12 NVL",
            WgpuUpscaleMethod::Cunny4x12Soft => "CuNNy 4x12 SOFT",
            WgpuUpscaleMethod::Cunny4x12Ds => "CuNNy 4x12 DS",
            WgpuUpscaleMethod::Cunny4x16Nvl => "CuNNy 4x16 NVL",
            WgpuUpscaleMethod::Cunny4x16Soft => "CuNNy 4x16 SOFT",
            WgpuUpscaleMethod::Cunny4x16Ds => "CuNNy 4x16 DS",
            WgpuUpscaleMethod::Cunny4x24Nvl => "CuNNy 4x24 NVL",
            WgpuUpscaleMethod::Cunny4x24Soft => "CuNNy 4x24 SOFT",
            WgpuUpscaleMethod::Cunny4x24Ds => "CuNNy 4x24 DS",
            WgpuUpscaleMethod::Cunny4x32Nvl => "CuNNy 4x32 NVL",
            WgpuUpscaleMethod::Cunny4x32Soft => "CuNNy 4x32 SOFT",
            WgpuUpscaleMethod::Cunny4x32Ds => "CuNNy 4x32 DS",
            WgpuUpscaleMethod::Cunny8x32Nvl => "CuNNy 8x32 NVL",
            WgpuUpscaleMethod::Cunny8x32Ds => "CuNNy 8x32 DS",
        }
    }

    /// Whether the upscaler is one of the CuNNy networks.
    pub open spec fn is_cunny_spec(self) -> bool {
        match self {
            WgpuUpscaleMethod::WgslFsrStyle => false,
            WgpuUpscaleMethod::WgslFsr1Easu => false,
            WgpuUpscaleMethod::WgslFsr1EasuRcas => false,
            WgpuUpscaleMethod::WgslAnime4kV32CnnX2S => false,
            WgpuUpscaleMethod::WgslAnime4kV32CnnX2M => false,
            WgpuUpscaleMethod::WgslArtcnnC4F16 => false,
            WgpuUpscaleMethod::WgslArtcnnC4F16Dn => false,
            WgpuUpscaleMethod::WgslArtcnnC4F16Ds => false,
            WgpuUpscaleMethod::WgslArtcnnC4F32 => false,
            WgpuUpscaleMethod::WgslArtcnnC4F32Dn => false,
            WgpuUpscaleMethod::WgslArtcnnC4F32Ds => false,
            WgpuUpscaleMethod::WgslSrLabSpanX2 => false,
            WgpuUpscaleMethod::NvidiaNis => false,
            WgpuUpscaleMethod::WgslAcnetF8B4Luma => false,
            WgpuUpscaleMethod::WgslAcnetF8B4BoxLuma => false,
            WgpuUpscaleMethod::WgslAcnetF8B4HdnLuma => false,
            WgpuUpscaleMethod::WgslAcnetF8B4BoxHdnLuma => false,
            _ => true,
        }
    }

    /// Whether the upscaler is one of the CuNNy networks.
    pub fn is_cunny(self) -> (cunny: bool)
        ensures
            cunny == self.is_cunny_spec(),
    {
        match self {
            WgpuUpscaleMethod::WgslFsrStyle => false,
            WgpuUpscaleMethod::WgslFsr1Easu => false,
            WgpuUpscaleMethod::WgslFsr1EasuRcas => false,
            WgpuUpscaleMethod::WgslAnime4kV32CnnX2S => false,
            WgpuUpscaleMethod::WgslAnime4kV32CnnX2M => false,
            WgpuUpscaleMethod::WgslArtcnnC4F16 => false,
            WgpuUpscaleMethod::WgslArtcnnC4F16Dn => false,
            WgpuUpscaleMethod::WgslArtcnnC4F16Ds => false,
            WgpuUpscaleMethod::WgslArtcnnC4F32 => false,
            WgpuUpscaleMethod::WgslArtcnnC4F32Dn => false,
            WgpuUpscaleMethod::WgslArtcnnC4F32Ds => false,
            WgpuUpscaleMethod::WgslSrLabSpanX2 => false,
            WgpuUpscaleMethod::NvidiaNis => false,
            WgpuUpscaleMethod::WgslAcnetF8B4Luma => false,
            WgpuUpscaleMethod::WgslAcnetF8B4BoxLuma => false,
            WgpuUpscaleMethod::WgslAcnetF8B4HdnLuma => false,
            WgpuUpscaleMethod::WgslAcnetF8B4BoxHdnLuma => false,
            _ => true,
        }
    }

    /// The number by which the single-pass shader knows the upscaler; 0 where another shader
    /// draws it.
    pub fn shader_method_id(self) -> (id: u32)
        ensures
            id == match self {
                WgpuUpscaleMethod::WgslFsrStyle => 1u32,
                WgpuUpscaleMethod::WgslFsr1Easu => 2u32,
                WgpuUpscaleMethod::WgslFsr1EasuRcas => 2u32,
                _ => 0u32,
            },
    {
        match self {
            WgpuUpscaleMethod::WgslFsrStyle => 1,
            WgpuUpscaleMethod::WgslFsr1Easu => 2,
            WgpuUpscaleMethod::WgslFsr1EasuRcas => 2,
            _ => 0,
        }
    }

    /// The number of the sharpening pass that follows, where there is one.
    pub fn rcas_shader_method_id(self) -> (id: Option<u32>)
        ensures
            id == match self {
                WgpuUpscaleMethod::WgslFsr1EasuRcas => Some(3u32),
                _ => None,
            },
    {
        match self {
            WgpuUpscaleMethod::WgslFsr1EasuRcas => Some(3),
            _ => None,
        }
    }
}

/// The CuNNy networks are those whose names say so.
pub proof fn cunny_networks_are_told_by_name(method: WgpuUpscaleMethod)
    ensures
        method.label_spec().len() > 5,
        method.is_cunny_spec() <==> method.label_spec()[0] == 'C' && method.label_spec()[1] == 'u',
{
    reveal_strlit("WGSL FSR style");
    reveal_strlit("WGSL FSR1 EASU");
    reveal_strlit("WGSL FSR1 EASU+RCAS");
    reveal_strlit("Anime4K v3.2 CNN x2 S");
    reveal_strlit("Anime4K v3.2 CNN x2 M");
    reveal_strlit("ArtCNN C4F16");
    reveal_strlit("ArtCNN C4F16 DN");
    reveal_strlit("ArtCNN C4F16 DS");
    reveal_strlit("ArtCNN C4F32");
    reveal_strlit("ArtCNN C4F32 DN");
    reveal_strlit("ArtCNN C4F32 DS");
    reveal_strlit("SR Lab SPAN x2");
    reveal_strlit("NVIDIA Image Scaling");
    reveal_strlit("ACNet F8B4 Luma");
    reveal_strlit("ACNet F8B4 Box Luma");
    reveal_strlit("ACNet F8B4 HDN Luma");
    reveal_strlit("ACNet F8B4 Box HDN Luma");
    reveal_strlit("CuNNy veryfast NVL");
    reveal_strlit("CuNNy veryfast SOFT");
    reveal_strlit("CuNNy faster NVL");
    reveal_strlit("CuNNy faster SOFT");
    reveal_strlit("CuNNy faster DS");
    reveal_strlit("CuNNy fast NVL");
    reveal_strlit("CuNNy fast SOFT");
    reveal_strlit("CuNNy fast DS");
    reveal_strlit("CuNNy 2x12 SOFT");
    reveal_strlit("CuNNy 2x12 DS");
    reveal_strlit("CuNNy 3x12 NVL");
    reveal_strlit("CuNNy 3x12 SOFT");
    reveal_strlit("CuNNy 3x12 DS");
    reveal_strlit("CuNNy 4x12 NVL");
    reveal_strlit("CuNNy 4x12 SOFT");
    reveal_strlit("CuNNy 4x12 DS");
    reveal_strlit("CuNNy 4x16 NVL");
    reveal_strlit("CuNNy 4x16 SOFT");
    reveal_strlit("CuNNy 4x16 DS");
    reveal_strlit("CuNNy 4x24 NVL");
    reveal_strlit("CuNNy 4x24 SOFT");
    reveal_strlit("CuNNy 4x24 DS");
    reveal_strlit("CuNNy 4x32 NVL");
    reveal_strlit("CuNNy 4x32 SOFT");
    reveal_strlit("CuNNy 4x32 DS");
    reveal_strlit("CuNNy 8x32 NVL");
    reveal_strlit("CuNNy 8x32 DS");
}

/// No two upscalers have one name.
#[verifier::rlimit(60)]
pub proof fn names_tell_upscalers_apart(left: WgpuUpscaleMethod, right: WgpuUpscaleMethod)
    requires
        left.label_spec() == right.label_spec(),
    ensures
        left == right,
{
    reveal_strlit("WGSL FSR style");
    reveal_strlit("WGSL FSR1 EASU");
    reveal_strlit("WGSL FSR1 EASU+RCAS");
    reveal_strlit("Anime4K v3.2 CNN x2 S");
    reveal_strlit("Anime4K v3.2 CNN x2 M");
    reveal_strlit("ArtCNN C4F16");
    reveal_strlit("ArtCNN C4F16 DN");
    reveal_strlit("ArtCNN C4F16 DS");
    reveal_strlit("ArtCNN C4F32");
    reveal_strlit("ArtCNN C4F32 DN");
    reveal_strlit("ArtCNN C4F32 DS");
    reveal_strlit("SR Lab SPAN x2");
    reveal_strlit("NVIDIA Image Scaling");
    reveal_strlit("ACNet F8B4 Luma");
    reveal_strlit("ACNet F8B4 Box Luma");
    reveal_strlit("ACNet F8B4 HDN Luma");
    reveal_strlit("ACNet F8B4 Box HDN Luma");
    reveal_strlit("CuNNy veryfast NVL");
    reveal_strlit("CuNNy veryfast SOFT");
    reveal_strlit("CuNNy faster NVL");
    reveal_strlit("CuNNy faster SOFT");
    reveal_strlit("CuNNy faster DS");
    reveal_strlit("CuNNy fast NVL");
    reveal_strlit("CuNNy fast SOFT");
    reveal_strlit("CuNNy fast DS");
    reveal_strlit("CuNNy 2x12 SOFT");
    reveal_strlit("CuNNy 2x12 DS");
    reveal_strlit("CuNNy 3x12 NVL");
    reveal_strlit("CuNNy 3x12 SOFT");
    reveal_strlit("CuNNy 3x12 DS");
    reveal_strlit("CuNNy 4x12 NVL");
    reveal_strlit("CuNNy 4x12 SOFT");
    reveal_strlit("CuNNy 4x12 DS");
    reveal_strlit("CuNNy 4x16 NVL");
    reveal_strlit("CuNNy 4x16 SOFT");
    reveal_strlit("CuNNy 4x16 DS");
    reveal_strlit("CuNNy 4x24 NVL");
    reveal_strlit("CuNNy 4x24 SOFT");
    reveal_strlit("CuNNy 4x24 DS");
    reveal_strlit("CuNNy 4x32 NVL");
    reveal_strlit("CuNNy 4x32 SOFT");
    reveal_strlit("CuNNy 4x32 DS");
    reveal_strlit("CuNNy 8x32 NVL");
    reveal_strlit("CuNNy 8x32 DS");
    let (one, other) = (left.label_spec(), right.label_spec());
    assert(one.len() == other.len());
    assert(one[0] == other[0] && one[1] == other[1] && one[6] == other[6] && one[8] == other[8]
        && one[9] == other[9] && one[10] == other[10] && one[11] == other[11]);
    assert(one.last() == other.last() && one[one.len() - 2] == other[other.len() - 2]);
    if one.len() > 14 {
        assert(one[12] == other[12] && one[13] == other[13] && one[14] == other[14]);
    }
}

} // verus!
