//! Sizes of a compute pass over a `width` x `height` frame and of the buffer
//! that the rendered texture is copied into.

use vstd::prelude::*;

verus! {

/// Edge length of the square workgroup declared by the shader (`@workgroup_size(16, 16)`).
pub const WORKGROUP_SIZE: u32 = 16;

/// Bytes per texel of the `Rgba32Float` storage texture: four 4-byte channels.
pub const BYTES_PER_TEXEL: u32 = 16;

/// Alignment that a texture-to-buffer copy demands of `bytes_per_row`.
pub const ROW_ALIGNMENT: u32 = 256;

/// Number of workgroups of `WORKGROUP_SIZE` needed to cover `extent` pixels.
pub open spec fn spec_workgroup_count(extent: int) -> int {
    (extent + WORKGROUP_SIZE - 1) / (WORKGROUP_SIZE as int)
}

/// Workgroups along one axis: `extent` divided by `WORKGROUP_SIZE`, rounded up.
pub fn workgroup_count(extent: u32) -> (n: u32)
    requires
        extent + (WORKGROUP_SIZE - 1) <= u32::MAX,
    ensures
        n == spec_workgroup_count(extent as int),
        n * WORKGROUP_SIZE >= extent,
        n * WORKGROUP_SIZE < extent + WORKGROUP_SIZE,
{
    (extent + (WORKGROUP_SIZE - 1)) / WORKGROUP_SIZE
}


/// Workgroup counts of a dispatch over a `width` x `height` frame.
pub fn workgroups(width: u32, height: u32) -> (w: (u32, u32, u32))
    requires
        width + (WORKGROUP_SIZE - 1) <= u32::MAX,
        height + (WORKGROUP_SIZE - 1) <= u32::MAX,
    ensures
        w == (
            spec_workgroup_count(width as int) as u32,
            spec_workgroup_count(height as int) as u32,
            1u32,
        ),
{
    (workgroup_count(width), workgroup_count(height), 1)
}

/// `n` rounded up to the next multiple of `align`.
pub open spec fn spec_round_up(n: int, align: int) -> int {
    if n % align == 0 {
        n
    } else {
        n + (align - n % align)
    }
}

/// Unpadded bytes of one texture row of `width` texels.
pub open spec fn spec_row_bytes(width: int) -> int {
    width * BYTES_PER_TEXEL
}

/// Bytes of one row of the copy-back buffer: the texel bytes of a row,
/// rounded up to `ROW_ALIGNMENT`.
pub open spec fn spec_padded_bytes_per_row(width: int) -> int {
    spec_round_up(spec_row_bytes(width), ROW_ALIGNMENT as int)
}

/// `bytes_per_row` of the copy from the storage texture into the output
/// buffer: `width * BYTES_PER_TEXEL` rounded up to a multiple of `ROW_ALIGNMENT`.
pub fn padded_bytes_per_row(width: u32) -> (b: u32)
    requires
        spec_padded_bytes_per_row(width as int) <= u32::MAX,
    ensures
        b == spec_padded_bytes_per_row(width as int),
        b % ROW_ALIGNMENT == 0,
        spec_row_bytes(width as int) <= b,
        b < spec_row_bytes(width as int) + ROW_ALIGNMENT,
{
    let row = width * BYTES_PER_TEXEL;
    let rem = row % ROW_ALIGNMENT;
    if rem == 0 {
        row
    } else {
        row + (ROW_ALIGNMENT - rem)
    }
}

/// Size in bytes of the buffer that receives `height` rows of `bytes_per_row` bytes.
pub fn output_buffer_size(bytes_per_row: u32, height: u32) -> (size: u64)
    requires
        bytes_per_row * height <= u32::MAX,
    ensures
        size == bytes_per_row * height,
{
    (bytes_per_row * height) as u64
}


/// What a compute pass over a `width` x `height` frame dispatches and reads back.
pub struct ComputePlan {
    /// Workgroup counts along x, y and z.
    pub workgroups: (u32, u32, u32),
    /// Bytes per row of the copy-back buffer.
    pub bytes_per_row: u32,
    /// Size in bytes of the copy-back buffer.
    pub output_size: u64,
    /// Distance in bytes between the starts of two rows of the read-back data.
    pub stride: usize,
}

/// Whether the copy-back of a `width` x `height` frame can be sized in
/// 32-bit arithmetic.
pub open spec fn readback_fits(width: int, height: int) -> bool {
    &&& spec_padded_bytes_per_row(width) <= u32::MAX
    &&& spec_padded_bytes_per_row(width) * height <= u32::MAX
}

/// `bytes_per_row` and buffer size of the copy-back of a `width` x `height`
/// frame, or `None` when they overflow 32-bit arithmetic.
pub fn try_readback_size(width: u32, height: u32) -> (sizes: Option<(u32, u64)>)
    ensures
        sizes is Some <==> readback_fits(width as int, height as int),
        sizes matches Some(s) ==> {
            &&& s.0 == spec_padded_bytes_per_row(width as int)
            &&& s.1 == spec_padded_bytes_per_row(width as int) * height
        },
        sizes is Some <==> ((16 * width + 255) / 256 * 256 <= u32::MAX && (16 * width + 255) / 256
            * 256 * height <= u32::MAX),
        sizes matches Some(s) ==> {
            &&& s.0 % 256 == 0
            &&& 16 * width <= s.0 < 16 * width + 256
            &&& s.1 == s.0 * height
        },
{
    proof {
        lemma_readback_fits_exactly(width as int, height as int);
    }
    let row = match width.checked_mul(BYTES_PER_TEXEL) {
        Some(row) => row,
        None => return None,
    };
    let rem = row % ROW_ALIGNMENT;
    let padded = if rem == 0 {
        Some(row)
    } else {
        row.checked_add(ROW_ALIGNMENT - rem)
    };
    let padded = match padded {
        Some(padded) => padded,
        None => return None,
    };
    if padded.checked_mul(height).is_none() {
        return None;
    }
    let bytes_per_row = padded_bytes_per_row(width);
    proof {
        lemma_readback_fits_exactly(width as int, height as int);
    }
    Some((bytes_per_row, output_buffer_size(bytes_per_row, height)))
}

/// Whether a compute pass over a `width` x `height` frame can be sized in
/// 32-bit arithmetic.
pub open spec fn compute_pass_fits(width: int, height: int) -> bool {
    &&& width + (WORKGROUP_SIZE - 1) <= u32::MAX
    &&& height + (WORKGROUP_SIZE - 1) <= u32::MAX
    &&& readback_fits(width, height)
}

/// Sizes of a compute pass over a `width` x `height` frame: the workgroups to
/// dispatch, the padded row pitch of the copy-back and the size of the buffer
/// that receives the frame.
pub fn plan_compute_pass(width: u32, height: u32) -> (plan: ComputePlan)
    requires
        compute_pass_fits(width as int, height as int),
    ensures
        plan.workgroups == (
            spec_workgroup_count(width as int) as u32,
            spec_workgroup_count(height as int) as u32,
            1u32,
        ),
        plan.bytes_per_row == spec_padded_bytes_per_row(width as int),
        plan.output_size == spec_padded_bytes_per_row(width as int) * height,
        plan.stride == spec_padded_bytes_per_row(width as int),
{
    let workgroups = workgroups(width, height);
    let bytes_per_row = padded_bytes_per_row(width);
    let output_size = output_buffer_size(bytes_per_row, height);
    ComputePlan { workgroups, bytes_per_row, output_size, stride: bytes_per_row as usize }
}


/// The plan of a compute pass over a `width` x `height` frame, or `None`
/// when its sizes overflow 32-bit arithmetic.
pub fn try_plan_compute_pass(width: u32, height: u32) -> (plan: Option<ComputePlan>)
    ensures
        plan is Some <==> compute_pass_fits(width as int, height as int),
        plan matches Some(p) ==> {
            &&& p.workgroups == (
                spec_workgroup_count(width as int) as u32,
                spec_workgroup_count(height as int) as u32,
                1u32,
            )
            &&& p.bytes_per_row == spec_padded_bytes_per_row(width as int)
            &&& p.output_size == spec_padded_bytes_per_row(width as int) * height
            &&& p.stride == spec_padded_bytes_per_row(width as int)
        },
        plan is Some <==> (width + 15 <= u32::MAX && height + 15 <= u32::MAX && (16 * width + 255)
            / 256 * 256 <= u32::MAX && (16 * width + 255) / 256 * 256 * height <= u32::MAX),
        plan matches Some(p) ==> {
            &&& p.workgroups.2 == 1
            &&& 16 * p.workgroups.0 >= width && 16 * (p.workgroups.0 - 1) < width
            &&& 16 * p.workgroups.1 >= height && 16 * (p.workgroups.1 - 1) < height
            &&& p.bytes_per_row % 256 == 0
            &&& 16 * width <= p.bytes_per_row < 16 * width + 256
            &&& p.output_size == p.bytes_per_row * height
            &&& p.stride == p.bytes_per_row
        },
{
    proof {
        lemma_compute_pass_fits_exactly(width as int, height as int);
        lemma_workgroup_count_is_least_cover(width as int);
        lemma_workgroup_count_is_least_cover(height as int);
    }
    if width.checked_add(WORKGROUP_SIZE - 1).is_none() || height.checked_add(WORKGROUP_SIZE - 1).is_none() {
        return None;
    }
    if try_readback_size(width, height).is_none() {
        return None;
    }
    Some(plan_compute_pass(width, height))
}


/// The workgroups along an axis are the fewest that cover it: together they
/// span at least `extent` pixels, and one fewer would leave pixels uncovered.
pub proof fn lemma_workgroup_count_is_least_cover(extent: int)
    requires
        extent >= 0,
    ensures
        spec_workgroup_count(extent) >= 0,
        16 * spec_workgroup_count(extent) >= extent,
        16 * (spec_workgroup_count(extent) - 1) < extent,
{
}

/// The padded row is the least multiple of 256 that holds `width` texels of
/// 16 bytes: the row bytes rounded up to the next multiple of 256.
pub proof fn lemma_padded_row_is_least_aligned(width: int)
    requires
        width >= 0,
    ensures
        spec_padded_bytes_per_row(width) % 256 == 0,
        16 * width <= spec_padded_bytes_per_row(width) < 16 * width + 256,
        spec_padded_bytes_per_row(width) == (16 * width + 255) / 256 * 256,
{
}

/// The copy-back of a frame can be sized exactly when the padded row and the
/// whole buffer fit in 32 bits; no frame is refused for anything else (such
/// as a row that needs padding).
pub proof fn lemma_readback_fits_exactly(width: int, height: int)
    requires
        width >= 0,
        height >= 0,
    ensures
        readback_fits(width, height) <==> ((16 * width + 255) / 256 * 256 <= u32::MAX && (16 * width
            + 255) / 256 * 256 * height <= u32::MAX),
{
    lemma_padded_row_is_least_aligned(width);
}

/// A compute pass can be planned exactly when both workgroup counts and the
/// copy-back sizes fit in 32 bits; no frame is refused for its shape (such as
/// a width that is not a multiple of the workgroup size).
pub proof fn lemma_compute_pass_fits_exactly(width: int, height: int)
    requires
        width >= 0,
        height >= 0,
    ensures
        compute_pass_fits(width, height) <==> (width + 15 <= u32::MAX && height + 15 <= u32::MAX && (16
            * width + 255) / 256 * 256 <= u32::MAX && (16 * width + 255) / 256 * 256 * height
            <= u32::MAX),
{
    lemma_readback_fits_exactly(width, height);
}

} // verus!
