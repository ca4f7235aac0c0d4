//! The ArtCNN networks: which there are and how their output is read back.
use crate::gpu::readback;
use crate::state::WgpuUpscaleMethod;
use vstd::prelude::*;

verus! {

/// An ArtCNN network.
#[derive(Debug, Clone, Copy, PartialEq, Eq, Hash, Structural)]
pub enum ArtcnnVariant {
    C4F16,
    C4F16Dn,
    C4F16Ds,
    C4F32,
    C4F32Dn,
    C4F32Ds,
}

/// The most memory that the network's own textures may take.
pub const TRANSIENT_BYTES_LIMIT: u64 = 805_306_368;

impl ArtcnnVariant {
    /// The network's name in messages.
    pub open spec fn label_spec(self) -> Seq<char> {
        match self {
            ArtcnnVariant::C4F16 => "ArtCNN C4F16"@,
            ArtcnnVariant::C4F16Dn => "ArtCNN C4F16 DN"@,
            ArtcnnVariant::C4F16Ds => "ArtCNN C4F16 DS"@,
            ArtcnnVariant::C4F32 => "ArtCNN C4F32"@,
            ArtcnnVariant::C4F32Dn => "ArtCNN C4F32 DN"@,
            ArtcnnVariant::C4F32Ds => "ArtCNN C4F32 DS"@,
        }
    }

    /// The network's name in messages.
    pub fn label(self) -> (label: &'static str)
        ensures
            label@ == self.label_spec(),
    {
        match self {
            ArtcnnVariant::C4F16 => "ArtCNN C4F16",
            ArtcnnVariant::C4F16Dn => "ArtCNN C4F16 DN",
            ArtcnnVariant::C4F16Ds => "ArtCNN C4F16 DS",
            ArtcnnVariant::C4F32 => "ArtCNN C4F32",
            ArtcnnVariant::C4F32Dn => "ArtCNN C4F32 DN",
            ArtcnnVariant::C4F32Ds => "ArtCNN C4F32 DS",
        }
    }

    /// All networks, in the order in which they are compiled.
    pub open spec fn all_spec() -> Seq<ArtcnnVariant> {
        seq![
            ArtcnnVariant::C4F16,
            ArtcnnVariant::C4F16Dn,
            ArtcnnVariant::C4F16Ds,
            ArtcnnVariant::C4F32,
            ArtcnnVariant::C4F32Dn,
            ArtcnnVariant::C4F32Ds,
        ]
    }

    /// All networks, in the order in which they are compiled.
    pub fn all() -> (variants: [ArtcnnVariant; 6])
        ensures
            variants@ == ArtcnnVariant::all_spec(),
    {
        let variants: [ArtcnnVariant; 6] = [
            ArtcnnVariant::C4F16,
            ArtcnnVariant::C4F16Dn,
            ArtcnnVariant::C4F16Ds,
            ArtcnnVariant::C4F32,
            ArtcnnVariant::C4F32Dn,
            ArtcnnVariant::C4F32Ds,
        ];
        assert(variants@ =~= ArtcnnVariant::all_spec());
        variants
    }
}

/// The network that an upscaler runs, where it is an ArtCNN one.
pub open spec fn variant_of(method: WgpuUpscaleMethod) -> Option<ArtcnnVariant> {
    match method {
        WgpuUpscaleMethod::WgslArtcnnC4F16 => Some(ArtcnnVariant::C4F16),
        WgpuUpscaleMethod::WgslArtcnnC4F16Dn => Some(ArtcnnVariant::C4F16Dn),
        WgpuUpscaleMethod::WgslArtcnnC4F16Ds => Some(ArtcnnVariant::C4F16Ds),
        WgpuUpscaleMethod::WgslArtcnnC4F32 => Some(ArtcnnVariant::C4F32),
        WgpuUpscaleMethod::WgslArtcnnC4F32Dn => Some(ArtcnnVariant::C4F32Dn),
        WgpuUpscaleMethod::WgslArtcnnC4F32Ds => Some(ArtcnnVariant::C4F32Ds),
        _ => None,
    }
}

/// The network that an upscaler runs, where it is an ArtCNN one.
pub fn variant_for_method(method: WgpuUpscaleMethod) -> (variant: Option<ArtcnnVariant>)
    ensures
        variant == variant_of(method),
{
    match method {
        WgpuUpscaleMethod::WgslArtcnnC4F16 => Some(ArtcnnVariant::C4F16),
        WgpuUpscaleMethod::WgslArtcnnC4F16Dn => Some(ArtcnnVariant::C4F16Dn),
        WgpuUpscaleMethod::WgslArtcnnC4F16Ds => Some(ArtcnnVariant::C4F16Ds),
        WgpuUpscaleMethod::WgslArtcnnC4F32 => Some(ArtcnnVariant::C4F32),
        WgpuUpscaleMethod::WgslArtcnnC4F32Dn => Some(ArtcnnVariant::C4F32Dn),
        WgpuUpscaleMethod::WgslArtcnnC4F32Ds => Some(ArtcnnVariant::C4F32Ds),
        _ => None,
    }
}

/// An upscaler runs the ArtCNN network of its own name, and every upscaler so named runs one.
pub proof fn networks_are_those_of_the_name(method: WgpuUpscaleMethod, other: WgpuUpscaleMethod)
    ensures
        variant_of(method) matches Some(variant) ==> variant.label_spec() == method.label_spec()
            && ArtcnnVariant::all_spec().contains(variant),
        variant_of(method) is Some <==> method.label_spec()[0] == 'A' && method.label_spec()[1]
            == 'r',
        variant_of(method) is Some && variant_of(method) == variant_of(other) ==> method == other,
        ArtcnnVariant::all_spec().no_duplicates(),
{
    reveal_strlit("WGSL FSR style");
    reveal_strlit("WGSL FSR1 EASU");
    reveal_strlit("WGSL FSR1 EASU+RCAS");
    reveal_strlit("Anime4K v3.2 CNN x2 S");
    reveal_strlit("Anime4K v3.2 CNN x2 M");
    reveal_strlit("ArtCNN C4F16");
    reveal_strlit("ArtCNN C4F16 DN");
    reveal_strlit("ArtCNN C4F16 DS");
    reveal_strlit("ArtCNN C4F32");
    reveal_strlit("ArtCNN C4F32 DN");
    reveal_strlit("ArtCNN C4F32 DS");
    reveal_strlit("SR Lab SPAN x2");
    reveal_strlit("NVIDIA Image Scaling");
    reveal_strlit("ACNet F8B4 Luma");
    reveal_strlit("ACNet F8B4 Box Luma");
    reveal_strlit("ACNet F8B4 HDN Luma");
    reveal_strlit("ACNet F8B4 Box HDN Luma");
    crate::state::cunny_networks_are_told_by_name(method);
    let all = ArtcnnVariant::all_spec();
    assert(all[0] == ArtcnnVariant::C4F16 && all[1] == ArtcnnVariant::C4F16Dn && all[2]
        == ArtcnnVariant::C4F16Ds && all[3] == ArtcnnVariant::C4F32 && all[4]
        == ArtcnnVariant::C4F32Dn && all[5] == ArtcnnVariant::C4F32Ds);
}

/// The bytes of the whole buffer, or what is wrong with their number.
pub open spec fn buffer_outcome(padded: int, height: int) -> Result<int, Seq<char>> {
    if padded * height > u64::MAX {
        Err("ArtCNN readback buffer size overflowed"@)
    } else {
        Ok(padded * height)
    }
}

/// The bytes of a buffer of padded rows.
pub fn readback_byte_size(padded_bytes_per_row: u32, output_height: usize) -> (size: Result<
    u64,
    String,
>)
    ensures
        match size {
            Ok(size) => buffer_outcome(padded_bytes_per_row as int, output_height as int) == Ok::<
                int,
                Seq<char>,
            >(size as int),
            Err(error) => buffer_outcome(padded_bytes_per_row as int, output_height as int) == Err::<
                int,
                Seq<char>,
            >(error@),
        },
{
    match (padded_bytes_per_row as u64).checked_mul(output_height as u64) {
        Some(size) => Ok(size),
        None => Err("ArtCNN readback buffer size overflowed".to_owned()),
    }
}

/// How the output of a network is read back, or what is wrong with its size.
pub open spec fn readback_outcome(variant: ArtcnnVariant, output: [usize; 2]) -> Result<
    readback::Readback,
    Seq<char>,
> {
    match readback::row_bytes_outcome(output[0] as int, variant.label_spec() + " output"@) {
        Err(error) => Err(error),
        Ok(row) => match readback::aligned_outcome(
            row,
            readback::ROW_ALIGNMENT as int,
            variant.label_spec() + " output row"@,
        ) {
            Err(error) => Err(error),
            Ok(padded) => match buffer_outcome(padded, output[1] as int) {
                Err(error) => Err(error),
                Ok(size) => if output[1] > u32::MAX {
                    Err(variant.label_spec() + " output row count exceeds u32"@)
                } else {
                    Ok(
                        readback::Readback {
                            row_bytes: row as u32,
                            padded_bytes_per_row: padded as u32,
                            rows: output[1] as u32,
                            size: size as u64,
                        },
                    )
                },
            },
        },
    }
}

/// A network's output is read back in rows of four bytes per pixel, each padded by less than one
/// alignment to a multiple of it, as many rows as the output is high.
pub proof fn outputs_are_read_back_in_padded_rows(
    variant: ArtcnnVariant,
    output: [usize; 2],
    layout: readback::Readback,
)
    requires
        readback_outcome(variant, output) == Ok::<readback::Readback, Seq<char>>(layout),
    ensures
        layout.row_bytes == 4 * output[0],
        layout.padded_bytes_per_row as int % 256 == 0,
        layout.row_bytes <= layout.padded_bytes_per_row < layout.row_bytes + 256,
        layout.rows == output[1],
        layout.size == layout.padded_bytes_per_row * output[1],
{
    readback::alignment_pads_by_less_than_one_unit(output[0] * 4, 256);
    let padded = readback::aligned(output[0] * 4, 256);
    assert(padded * output[1] >= 0) by (nonlinear_arith)
        requires
            padded >= 0,
    ;
}

/// Plans how the output of a network is read back.
pub fn plan_readback(variant: ArtcnnVariant, output: [usize; 2]) -> (layout: Result<
    readback::Readback,
    String,
>)
    ensures
        match layout {
            Ok(layout) => readback_outcome(variant, output) == Ok::<readback::Readback, Seq<char>>(
                layout,
            ),
            Err(error) => readback_outcome(variant, output) == Err::<readback::Readback, Seq<char>>(
                error@,
            ),
        },
{
    let label = variant.label();
    let row_label = readback::joined(label, " output");
    let row_bytes: u32 = match readback::rgba8_bytes_per_row(output[0], row_label.as_str()) {
        Ok(bytes) => bytes,
        Err(error) => return Err(error),
    };
    let padded_label = readback::joined(label, " output row");
    let padded_bytes_per_row: u32 = match readback::align_to_checked(
        row_bytes,
        readback::ROW_ALIGNMENT,
        padded_label.as_str(),
    ) {
        Ok(padded) => padded,
        Err(error) => return Err(error),
    };
    let size: u64 = match readback_byte_size(padded_bytes_per_row, output[1]) {
        Ok(size) => size,
        Err(error) => return Err(error),
    };
    if output[1] > u32::MAX as usize {
        return Err(readback::joined(label, " output row count exceeds u32"));
    }
    Ok(readback::Readback { row_bytes, padded_bytes_per_row, rows: output[1] as u32, size })
}

/// The bytes of a source row and the number of rows, or what is wrong with them.
pub open spec fn upload_outcome(size: [usize; 2]) -> Result<(int, int), Seq<char>> {
    match readback::row_bytes_outcome(size[0] as int, "ArtCNN source"@) {
        Err(error) => Err(error),
        Ok(row) => if size[1] > u32::MAX {
            Err("ArtCNN source row count exceeds u32"@)
        } else {
            Ok((row, size[1] as int))
        },
    }
}

/// The bytes of a source row and the number of rows.
pub fn plan_upload(size: [usize; 2]) -> (layout: Result<(u32, u32), String>)
    ensures
        match layout {
            Ok(layout) => upload_outcome(size) == Ok::<(int, int), Seq<char>>(
                (layout.0 as int, layout.1 as int),
            ),
            Err(error) => upload_outcome(size) == Err::<(int, int), Seq<char>>(error@),
        },
{
    let row: u32 = match readback::rgba8_bytes_per_row(size[0], "ArtCNN source") {
        Ok(bytes) => bytes,
        Err(error) => return Err(error),
    };
    if size[1] > u32::MAX as usize {
        return Err("ArtCNN source row count exceeds u32".to_owned());
    }
    Ok((row, size[1] as u32))
}

} // verus!
