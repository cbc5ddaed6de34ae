use vstd::prelude::*;

verus! {

/// Bytes per pixel of every format the texture cache imports.
pub const BYTES_PER_PIXEL: u32 = 4;

/// Why a shared-memory buffer cannot be copied into a texture.
#[derive(Debug, Clone, Copy, PartialEq, Eq, Structural)]
pub enum UploadError {
    /// Width or height is zero.
    EmptyBuffer,
    /// A row is not a whole number of pixels.
    UnalignedStride,
    /// A row is shorter than the buffer's width.
    StrideTooSmall,
}

/// How the staging copy reads a shared-memory buffer.
#[derive(Debug, Clone, Copy, PartialEq, Eq, Structural)]
pub struct CopyLayout {
    /// Row length in pixels, as the buffer-to-image copy takes it.
    pub row_length: u32,
    pub height: u32,
    /// Bytes to copy into the staging buffer.
    pub total_bytes: u64,
}

/// The copy of a `width` x `height` buffer whose rows are `stride` bytes apart.
pub fn shm_copy_layout(width: u32, height: u32, stride: u32) -> (r: Result<CopyLayout, UploadError>)
    ensures
        (width == 0 || height == 0) ==> r == Err::<CopyLayout, UploadError>(UploadError::EmptyBuffer),
        width > 0 && height > 0 && stride % 4 != 0 ==> r == Err::<CopyLayout, UploadError>(
            UploadError::UnalignedStride,
        ),
        width > 0 && height > 0 && stride % 4 == 0 && stride < 4 * width ==> r == Err::<
            CopyLayout,
            UploadError,
        >(UploadError::StrideTooSmall),
        width > 0 && height > 0 && stride % 4 == 0 && stride >= 4 * width ==> r == Ok::<
            CopyLayout,
            UploadError,
        >(CopyLayout { row_length: stride / 4, height, total_bytes: (stride * height) as u64 }),
{
    if width == 0 || height == 0 {
        return Err(UploadError::EmptyBuffer);
    }
    if stride % BYTES_PER_PIXEL != 0 {
        return Err(UploadError::UnalignedStride);
    }
    if (stride as u64) < 4u64 * (width as u64) {
        return Err(UploadError::StrideTooSmall);
    }
    proof {
        assert(stride as int * height as int <= 0xffff_ffff * 0xffff_ffff) by (nonlinear_arith)
            requires stride <= 0xffff_ffff, height <= 0xffff_ffff;
    }
    Ok(CopyLayout { row_length: stride / BYTES_PER_PIXEL, height, total_bytes: stride as u64 * height as u64 })
}

/// The staging buffer is rebuilt when there is none or it is too small.
pub fn staging_needs_realloc(capacity: Option<u64>, required: u64) -> (r: bool)
    ensures
        r == match capacity {
            None => true,
            Some(c) => c < required,
        },
{
    match capacity {
        None => true,
        Some(c) => c < required,
    }
}

} // verus!
