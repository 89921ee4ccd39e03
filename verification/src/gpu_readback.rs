//! The layout of GPU readbacks for diagnostics and probes.

use vstd::prelude::*;
use vstd::string::*;

verus! {

broadcast use vstd::string::group_string_axioms;

/// Why a readback failed.
#[derive(Debug)]
pub enum GpuReadbackError {
    InvalidLayout(&'static str),
    MapFailed(String),
}

impl GpuReadbackError {
    /// The message for the failure.
    pub fn message(&self) -> (r: String)
        ensures
            r@ == match self {
                GpuReadbackError::InvalidLayout(message) => "invalid_gpu_readback_layout: "@
                    + message@,
                GpuReadbackError::MapFailed(error) => "gpu_readback_map_failed: "@ + error@,
            },
    {
        match self {
            GpuReadbackError::InvalidLayout(message) =>
                "invalid_gpu_readback_layout: ".to_owned().concat(message),
            GpuReadbackError::MapFailed(error) => "gpu_readback_map_failed: ".to_owned().concat(
                error.as_str(),
            ),
        }
    }
}

/// `wgpu::TextureFormat`, the texel format of a texture.
#[verifier::external_type_specification]
#[verifier::external_body]
pub struct ExTextureFormat(wgpu::TextureFormat);

/// What `wgpu::TextureFormat::block_copy_size` gives for all aspects of a
/// format: the bytes of one texel block, where copies have a size.
pub uninterp spec fn block_copy_size_of(format: wgpu::TextureFormat) -> Option<u32>;

/// Calls `wgpu::TextureFormat::block_copy_size` without an aspect. The result
/// depends on the format alone.
#[verifier::external_body]
fn block_copy_size(format: wgpu::TextureFormat) -> (r: Option<u32>)
    ensures
        r == block_copy_size_of(format),
{
    format.block_copy_size(None)
}

/// Reads the constant `wgpu::COPY_BYTES_PER_ROW_ALIGNMENT`, to which the rows of
/// a copy are aligned.
#[verifier::external_body]
fn row_alignment() -> (r: u32)
    ensures
        r == 256,
{
    wgpu::COPY_BYTES_PER_ROW_ALIGNMENT
}

/// The smallest aligned row that holds a number of bytes.
pub fn aligned_bytes_per_row(unpadded_bytes_per_row: u32) -> (r: u32)
    requires
        unpadded_bytes_per_row <= u32::MAX - 256,
    ensures
        r % 256 == 0,
        unpadded_bytes_per_row <= r < unpadded_bytes_per_row + 256,
{
    let alignment: u32 = row_alignment();
    (unpadded_bytes_per_row + alignment - 1) / alignment * alignment
}

/// The part of a texture that is read back.
#[derive(Clone, Copy, Debug)]
pub struct ReadbackExtent {
    pub width: u32,
    pub height: u32,
    pub depth_or_array_layers: u32,
}

/// Whether nothing is to be read.
pub open spec fn is_empty_extent(extent: ReadbackExtent) -> bool {
    extent.width == 0 || extent.height == 0 || extent.depth_or_array_layers == 0
}

/// The bytes of the staging buffer of a readback, or what is wrong with its
/// layout. Each row must be aligned and hold all its texel blocks.
pub open spec fn staging_layout(
    extent: ReadbackExtent,
    block_size: Option<u32>,
    bytes_per_row: u32,
) -> Result<u64, Seq<char>> {
    if is_empty_extent(extent) {
        Err("texture extent is empty"@)
    } else if block_size is None {
        Err("texture format has no byte size"@)
    } else if block_size->0 * extent.width > u32::MAX {
        Err("row byte count overflow"@)
    } else if bytes_per_row % 256 != 0 || bytes_per_row < block_size->0 * extent.width {
        Err("bytes_per_row is too small or not 256-byte aligned"@)
    } else if bytes_per_row * extent.height * extent.depth_or_array_layers > u64::MAX {
        Err("staging size overflow"@)
    } else {
        Ok((bytes_per_row * extent.height * extent.depth_or_array_layers) as u64)
    }
}

/// The outcome of a layout by what it holds.
pub open spec fn layout_view(r: Result<u64, GpuReadbackError>) -> Result<u64, Seq<char>> {
    match r {
        Ok(size) => Ok(size),
        Err(GpuReadbackError::InvalidLayout(message)) => Err(message@),
        Err(GpuReadbackError::MapFailed(error)) => Err(error@),
    }
}

/// The bytes of the staging buffer of a readback, given the bytes of a texel
/// block.
pub fn staging_size(extent: ReadbackExtent, block_size: Option<u32>, bytes_per_row: u32) -> (r:
    Result<u64, GpuReadbackError>)
    ensures
        layout_view(r) == staging_layout(extent, block_size, bytes_per_row),
        r matches Err(e) ==> e is InvalidLayout,
{
    if extent.width == 0 || extent.height == 0 || extent.depth_or_array_layers == 0 {
        return Err(GpuReadbackError::InvalidLayout("texture extent is empty"));
    }
    let block: u32 = match block_size {
        Some(block) => block,
        None => {
            return Err(GpuReadbackError::InvalidLayout("texture format has no byte size"));
        },
    };
    let row: u32 = match block.checked_mul(extent.width) {
        Some(row) => row,
        None => {
            return Err(GpuReadbackError::InvalidLayout("row byte count overflow"));
        },
    };
    if bytes_per_row % row_alignment() != 0 || bytes_per_row < row {
        return Err(
            GpuReadbackError::InvalidLayout("bytes_per_row is too small or not 256-byte aligned"),
        );
    }
    proof {
        assert(bytes_per_row * extent.height <= u32::MAX * u32::MAX) by (nonlinear_arith)
            requires
                0 <= bytes_per_row <= u32::MAX,
                0 <= extent.height <= u32::MAX,
        ;
    }
    let layer: u64 = bytes_per_row as u64 * extent.height as u64;
    match layer.checked_mul(extent.depth_or_array_layers as u64) {
        Some(size) => Ok(size),
        None => Err(GpuReadbackError::InvalidLayout("staging size overflow")),
    }
}

/// The bytes of the staging buffer for a readback of a texture of that format.
pub fn texture_staging_size(
    format: wgpu::TextureFormat,
    extent: ReadbackExtent,
    bytes_per_row: u32,
) -> (r: Result<u64, GpuReadbackError>)
    ensures
        layout_view(r) == staging_layout(extent, block_copy_size_of(format), bytes_per_row),
        r matches Err(e) ==> e is InvalidLayout,
{
    staging_size(extent, block_copy_size(format), bytes_per_row)
}

/// The row that `aligned_bytes_per_row` gives for the texels of a row passes the
/// layout of a readback, as long as the staging buffer has a size.
pub proof fn law_aligned_row_is_accepted(extent: ReadbackExtent, block: u32, bytes_per_row: u32)
    requires
        !is_empty_extent(extent),
        bytes_per_row % 256 == 0,
        block * extent.width <= bytes_per_row < block * extent.width + 256,
        bytes_per_row * extent.height * extent.depth_or_array_layers <= u64::MAX,
    ensures
        staging_layout(extent, Some(block), bytes_per_row) == Ok::<u64, Seq<char>>(
            (bytes_per_row * extent.height * extent.depth_or_array_layers) as u64,
        ),
{
}

/// A layout is accepted exactly where the texture is not empty, its texels have a
/// byte size, a row of them fits a row of the staging buffer, that row is a multiple
/// of the alignment, and the whole is countable; its size is then that of all rows
/// of all layers.
pub proof fn law_layout_is_accepted_when_it_holds_the_texture(
    extent: ReadbackExtent,
    block_size: Option<u32>,
    bytes_per_row: u32,
)
    ensures
        ({
            let layout = staging_layout(extent, block_size, bytes_per_row);
            let rows = bytes_per_row * extent.height * extent.depth_or_array_layers;
            &&& layout is Ok <==> {
                &&& extent.width > 0 && extent.height > 0 && extent.depth_or_array_layers > 0
                &&& block_size is Some
                &&& block_size->0 * extent.width <= bytes_per_row
                &&& bytes_per_row % 256 == 0
                &&& rows <= u64::MAX
            }
            &&& layout is Ok ==> layout->Ok_0 == rows
        }),
{
}

} // verus!
