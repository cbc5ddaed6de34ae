use vstd::prelude::*;

verus! {

/// `wl_shm` code of ARGB8888 (the protocol gives the two mandatory formats small codes).
pub const WL_SHM_ARGB8888: u32 = 0;

/// `wl_shm` code of XRGB8888.
pub const WL_SHM_XRGB8888: u32 = 1;

/// DRM fourcc `AR24`.
pub const DRM_FORMAT_ARGB8888: u32 = 0x34325241;

/// DRM fourcc `XR24`.
pub const DRM_FORMAT_XRGB8888: u32 = 0x34325258;

/// DRM fourcc `RA24`.
pub const DRM_FORMAT_RGBA8888: u32 = 0x34324152;

/// DRM fourcc `RX24`.
pub const DRM_FORMAT_RGBX8888: u32 = 0x34325852;

/// The code a DRM fourcc gives to four characters: the first in the lowest byte.
pub open spec fn fourcc(a: u8, b: u8, c: u8, d: u8) -> int {
    a + b * 0x100 + c * 0x10000 + d * 0x1000000
}

/// The fourcc constants spell their names.
pub proof fn fourcc_codes()
    ensures
        DRM_FORMAT_ARGB8888 == fourcc(65, 82, 50, 52),
        DRM_FORMAT_XRGB8888 == fourcc(88, 82, 50, 52),
        DRM_FORMAT_RGBA8888 == fourcc(82, 65, 50, 52),
        DRM_FORMAT_RGBX8888 == fourcc(82, 88, 50, 52),
{
}

/// Pixel layouts accepted from shared-memory buffers.
#[derive(Debug, Clone, Copy, PartialEq, Eq, Structural)]
pub enum ShmFormat {
    Argb8888,
    Xrgb8888,
    Rgba8888,
    Rgbx8888,
}

/// Pixel layouts accepted from DMA-BUF buffers.
#[derive(Debug, Clone, Copy, PartialEq, Eq, Structural)]
pub enum DmaBufFormat {
    Argb8888,
    Xrgb8888,
    Rgba8888,
    Rgbx8888,
}

/// GPU image formats the texture cache creates.
#[derive(Debug, Clone, Copy, PartialEq, Eq, Structural)]
pub enum GpuFormat {
    /// `VK_FORMAT_B8G8R8A8_UNORM`
    B8G8R8A8Unorm,
    /// `VK_FORMAT_R8G8B8A8_UNORM`
    R8G8B8A8Unorm,
}

impl GpuFormat {
    /// The Vulkan enumerant of the format.
    pub fn raw(&self) -> (r: i32)
        ensures
            *self == GpuFormat::B8G8R8A8Unorm ==> r == 44,
            *self == GpuFormat::R8G8B8A8Unorm ==> r == 37,
    {
        match self {
            GpuFormat::B8G8R8A8Unorm => 44,
            GpuFormat::R8G8B8A8Unorm => 37,
        }
    }
}

/// How a client buffer becomes a texture.
#[derive(Debug, Clone, Copy, PartialEq, Eq, Structural)]
pub struct TextureFormat {
    pub gpu: GpuFormat,
    /// The alpha channel is padding: sample it as one.
    pub opaque_alpha: bool,
    /// The client's format was not supported; the texture is drawn black.
    pub black_fill: bool,
}

pub open spec fn shm_code_of(f: ShmFormat) -> u32 {
    match f {
        ShmFormat::Argb8888 => WL_SHM_ARGB8888,
        ShmFormat::Xrgb8888 => WL_SHM_XRGB8888,
        ShmFormat::Rgba8888 => DRM_FORMAT_RGBA8888,
        ShmFormat::Rgbx8888 => DRM_FORMAT_RGBX8888,
    }
}

pub open spec fn fourcc_of(f: DmaBufFormat) -> u32 {
    match f {
        DmaBufFormat::Argb8888 => DRM_FORMAT_ARGB8888,
        DmaBufFormat::Xrgb8888 => DRM_FORMAT_XRGB8888,
        DmaBufFormat::Rgba8888 => DRM_FORMAT_RGBA8888,
        DmaBufFormat::Rgbx8888 => DRM_FORMAT_RGBX8888,
    }
}

/// The texture format for each shared-memory format code.
pub open spec fn shm_texture_spec(code: u32) -> TextureFormat {
    if code == WL_SHM_ARGB8888 {
        TextureFormat { gpu: GpuFormat::B8G8R8A8Unorm, opaque_alpha: false, black_fill: false }
    } else if code == WL_SHM_XRGB8888 {
        TextureFormat { gpu: GpuFormat::B8G8R8A8Unorm, opaque_alpha: true, black_fill: false }
    } else if code == DRM_FORMAT_RGBA8888 {
        TextureFormat { gpu: GpuFormat::R8G8B8A8Unorm, opaque_alpha: false, black_fill: false }
    } else if code == DRM_FORMAT_RGBX8888 {
        TextureFormat { gpu: GpuFormat::R8G8B8A8Unorm, opaque_alpha: true, black_fill: false }
    } else {
        TextureFormat { gpu: GpuFormat::B8G8R8A8Unorm, opaque_alpha: false, black_fill: true }
    }
}

/// The texture format for each DMA-BUF fourcc.
pub open spec fn dmabuf_texture_spec(code: u32) -> TextureFormat {
    if code == DRM_FORMAT_ARGB8888 {
        TextureFormat { gpu: GpuFormat::B8G8R8A8Unorm, opaque_alpha: false, black_fill: false }
    } else if code == DRM_FORMAT_XRGB8888 {
        TextureFormat { gpu: GpuFormat::B8G8R8A8Unorm, opaque_alpha: true, black_fill: false }
    } else if code == DRM_FORMAT_RGBA8888 {
        TextureFormat { gpu: GpuFormat::R8G8B8A8Unorm, opaque_alpha: false, black_fill: false }
    } else if code == DRM_FORMAT_RGBX8888 {
        TextureFormat { gpu: GpuFormat::R8G8B8A8Unorm, opaque_alpha: true, black_fill: false }
    } else {
        TextureFormat { gpu: GpuFormat::B8G8R8A8Unorm, opaque_alpha: false, black_fill: true }
    }
}

/// Reads a `wl_shm` format code; `None` for a layout the cache cannot import.
pub fn shm_format_from_code(code: u32) -> (r: Option<ShmFormat>)
    ensures
        r matches Some(f) ==> shm_code_of(f) == code,
        r is None ==> (forall|f: ShmFormat| shm_code_of(f) != code),
{
    if code == WL_SHM_ARGB8888 {
        Some(ShmFormat::Argb8888)
    } else if code == WL_SHM_XRGB8888 {
        Some(ShmFormat::Xrgb8888)
    } else if code == DRM_FORMAT_RGBA8888 {
        Some(ShmFormat::Rgba8888)
    } else if code == DRM_FORMAT_RGBX8888 {
        Some(ShmFormat::Rgbx8888)
    } else {
        proof {
            assert forall|f: ShmFormat| shm_code_of(f) != code by {
                match f {
                    ShmFormat::Argb8888 => {},
                    ShmFormat::Xrgb8888 => {},
                    ShmFormat::Rgba8888 => {},
                    ShmFormat::Rgbx8888 => {},
                }
            }
        }
        None
    }
}

/// Reads a DRM fourcc code; `None` for a layout the cache cannot import.
pub fn dmabuf_format_from_fourcc(code: u32) -> (r: Option<DmaBufFormat>)
    ensures
        r matches Some(f) ==> fourcc_of(f) == code,
        r is None ==> (forall|f: DmaBufFormat| fourcc_of(f) != code),
{
    if code == DRM_FORMAT_ARGB8888 {
        Some(DmaBufFormat::Argb8888)
    } else if code == DRM_FORMAT_XRGB8888 {
        Some(DmaBufFormat::Xrgb8888)
    } else if code == DRM_FORMAT_RGBA8888 {
        Some(DmaBufFormat::Rgba8888)
    } else if code == DRM_FORMAT_RGBX8888 {
        Some(DmaBufFormat::Rgbx8888)
    } else {
        proof {
            assert forall|f: DmaBufFormat| fourcc_of(f) != code by {
                match f {
                    DmaBufFormat::Argb8888 => {},
                    DmaBufFormat::Xrgb8888 => {},
                    DmaBufFormat::Rgba8888 => {},
                    DmaBufFormat::Rgbx8888 => {},
                }
            }
        }
        None
    }
}

/// Byte order in memory B,G,R,A for the ARGB/XRGB little-endian words,
/// R,G,B,A for the RGBA/RGBX ones.
pub fn shm_format_to_vulkan(format: ShmFormat) -> (r: GpuFormat)
    ensures
        r == (match format {
            ShmFormat::Argb8888 | ShmFormat::Xrgb8888 => GpuFormat::B8G8R8A8Unorm,
            ShmFormat::Rgba8888 | ShmFormat::Rgbx8888 => GpuFormat::R8G8B8A8Unorm,
        }),
{
    match format {
        ShmFormat::Argb8888 => GpuFormat::B8G8R8A8Unorm,
        ShmFormat::Xrgb8888 => GpuFormat::B8G8R8A8Unorm,
        ShmFormat::Rgba8888 => GpuFormat::R8G8B8A8Unorm,
        ShmFormat::Rgbx8888 => GpuFormat::R8G8B8A8Unorm,
    }
}

/// The same mapping for DMA-BUF layouts.
pub fn dmabuf_format_to_vulkan(format: DmaBufFormat) -> (r: GpuFormat)
    ensures
        r == (match format {
            DmaBufFormat::Argb8888 | DmaBufFormat::Xrgb8888 => GpuFormat::B8G8R8A8Unorm,
            DmaBufFormat::Rgba8888 | DmaBufFormat::Rgbx8888 => GpuFormat::R8G8B8A8Unorm,
        }),
{
    match format {
        DmaBufFormat::Argb8888 => GpuFormat::B8G8R8A8Unorm,
        DmaBufFormat::Xrgb8888 => GpuFormat::B8G8R8A8Unorm,
        DmaBufFormat::Rgba8888 => GpuFormat::R8G8B8A8Unorm,
        DmaBufFormat::Rgbx8888 => GpuFormat::R8G8B8A8Unorm,
    }
}

/// The texture format for a shared-memory buffer with format code `code`.
/// An unsupported code falls back to ARGB8888 drawn black.
pub fn shm_texture_format(code: u32) -> (r: TextureFormat)
    ensures
        r == shm_texture_spec(code),
        (forall|f: ShmFormat| shm_code_of(f) != code) ==> r == (TextureFormat {
            gpu: GpuFormat::B8G8R8A8Unorm,
            opaque_alpha: false,
            black_fill: true,
        }),
        forall|f: ShmFormat| shm_code_of(f) == code ==> r == (TextureFormat {
            gpu: match f {
                ShmFormat::Argb8888 | ShmFormat::Xrgb8888 => GpuFormat::B8G8R8A8Unorm,
                ShmFormat::Rgba8888 | ShmFormat::Rgbx8888 => GpuFormat::R8G8B8A8Unorm,
            },
            opaque_alpha: f == ShmFormat::Xrgb8888 || f == ShmFormat::Rgbx8888,
            black_fill: false,
        }),
{
    match shm_format_from_code(code) {
        Some(f) => {
            let opaque = match f {
                ShmFormat::Xrgb8888 | ShmFormat::Rgbx8888 => true,
                _ => false,
            };
            let r = TextureFormat { gpu: shm_format_to_vulkan(f), opaque_alpha: opaque, black_fill: false };
            proof {
                assert forall|g: ShmFormat| shm_code_of(g) == code implies g == f by {
                    match g {
                        ShmFormat::Argb8888 => {},
                        ShmFormat::Xrgb8888 => {},
                        ShmFormat::Rgba8888 => {},
                        ShmFormat::Rgbx8888 => {},
                    }
                    match f {
                        ShmFormat::Argb8888 => {},
                        ShmFormat::Xrgb8888 => {},
                        ShmFormat::Rgba8888 => {},
                        ShmFormat::Rgbx8888 => {},
                    }
                }
            }
            r
        },
        None => {
            proof {
                assert(shm_code_of(ShmFormat::Argb8888) != code);
                assert(shm_code_of(ShmFormat::Xrgb8888) != code);
                assert(shm_code_of(ShmFormat::Rgba8888) != code);
                assert(shm_code_of(ShmFormat::Rgbx8888) != code);
            }
            TextureFormat { gpu: GpuFormat::B8G8R8A8Unorm, opaque_alpha: false, black_fill: true }
        },
    }
}

/// The texture format for a DMA-BUF with fourcc `code`, with the same fallback.
pub fn dmabuf_texture_format(code: u32) -> (r: TextureFormat)
    ensures
        r == dmabuf_texture_spec(code),
        (forall|f: DmaBufFormat| fourcc_of(f) != code) ==> r == (TextureFormat {
            gpu: GpuFormat::B8G8R8A8Unorm,
            opaque_alpha: false,
            black_fill: true,
        }),
        forall|f: DmaBufFormat| fourcc_of(f) == code ==> r == (TextureFormat {
            gpu: match f {
                DmaBufFormat::Argb8888 | DmaBufFormat::Xrgb8888 => GpuFormat::B8G8R8A8Unorm,
                DmaBufFormat::Rgba8888 | DmaBufFormat::Rgbx8888 => GpuFormat::R8G8B8A8Unorm,
            },
            opaque_alpha: f == DmaBufFormat::Xrgb8888 || f == DmaBufFormat::Rgbx8888,
            black_fill: false,
        }),
{
    match dmabuf_format_from_fourcc(code) {
        Some(f) => {
            let opaque = match f {
                DmaBufFormat::Xrgb8888 | DmaBufFormat::Rgbx8888 => true,
                _ => false,
            };
            let r = TextureFormat { gpu: dmabuf_format_to_vulkan(f), opaque_alpha: opaque, black_fill: false };
            proof {
                assert forall|g: DmaBufFormat| fourcc_of(g) == code implies g == f by {
                    match g {
                        DmaBufFormat::Argb8888 => {},
                        DmaBufFormat::Xrgb8888 => {},
                        DmaBufFormat::Rgba8888 => {},
                        DmaBufFormat::Rgbx8888 => {},
                    }
                    match f {
                        DmaBufFormat::Argb8888 => {},
                        DmaBufFormat::Xrgb8888 => {},
                        DmaBufFormat::Rgba8888 => {},
                        DmaBufFormat::Rgbx8888 => {},
                    }
                }
            }
            r
        },
        None => {
            proof {
                assert(fourcc_of(DmaBufFormat::Argb8888) != code);
                assert(fourcc_of(DmaBufFormat::Xrgb8888) != code);
                assert(fourcc_of(DmaBufFormat::Rgba8888) != code);
                assert(fourcc_of(DmaBufFormat::Rgbx8888) != code);
            }
            TextureFormat { gpu: GpuFormat::B8G8R8A8Unorm, opaque_alpha: false, black_fill: true }
        },
    }
}

/// `DRM_FORMAT_MOD_LINEAR`
pub const MODIFIER_LINEAR: u64 = 0;

/// A format and modifier pair offered to DMA-BUF clients.
#[derive(Debug, Clone, Copy, PartialEq, Eq, Structural)]
pub struct FormatModifier {
    pub fourcc: u32,
    pub modifier: u64,
}

/// The DMA-BUF formats advertised: each importable layout with the linear
/// modifier, the mandatory ARGB8888 and XRGB8888 first.
pub fn advertised_dmabuf_formats() -> (r: Vec<FormatModifier>)
    ensures
        r@ == seq![
            FormatModifier { fourcc: DRM_FORMAT_ARGB8888, modifier: MODIFIER_LINEAR },
            FormatModifier { fourcc: DRM_FORMAT_XRGB8888, modifier: MODIFIER_LINEAR },
            FormatModifier { fourcc: DRM_FORMAT_RGBA8888, modifier: MODIFIER_LINEAR },
            FormatModifier { fourcc: DRM_FORMAT_RGBX8888, modifier: MODIFIER_LINEAR },
        ],
{
    let mut r: Vec<FormatModifier> = Vec::new();
    r.push(FormatModifier { fourcc: DRM_FORMAT_ARGB8888, modifier: MODIFIER_LINEAR });
    r.push(FormatModifier { fourcc: DRM_FORMAT_XRGB8888, modifier: MODIFIER_LINEAR });
    r.push(FormatModifier { fourcc: DRM_FORMAT_RGBA8888, modifier: MODIFIER_LINEAR });
    r.push(FormatModifier { fourcc: DRM_FORMAT_RGBX8888, modifier: MODIFIER_LINEAR });
    proof {
        assert(r@ =~= seq![
            FormatModifier { fourcc: DRM_FORMAT_ARGB8888, modifier: MODIFIER_LINEAR },
            FormatModifier { fourcc: DRM_FORMAT_XRGB8888, modifier: MODIFIER_LINEAR },
            FormatModifier { fourcc: DRM_FORMAT_RGBA8888, modifier: MODIFIER_LINEAR },
            FormatModifier { fourcc: DRM_FORMAT_RGBX8888, modifier: MODIFIER_LINEAR },
        ]);
    }
    r
}

/// Whether the pair is among those `advertised_dmabuf_formats` lists.
pub open spec fn is_advertised(fourcc: u32, modifier: u64) -> bool {
    modifier == MODIFIER_LINEAR && (fourcc == DRM_FORMAT_ARGB8888 || fourcc == DRM_FORMAT_XRGB8888 || fourcc
        == DRM_FORMAT_RGBA8888 || fourcc == DRM_FORMAT_RGBX8888)
}

/// `is_advertised` holds exactly of the pairs the advertisement lists.
pub proof fn advertised_pairs(fourcc: u32, modifier: u64, list: Seq<FormatModifier>)
    requires
        list == seq![
            FormatModifier { fourcc: DRM_FORMAT_ARGB8888, modifier: MODIFIER_LINEAR },
            FormatModifier { fourcc: DRM_FORMAT_XRGB8888, modifier: MODIFIER_LINEAR },
            FormatModifier { fourcc: DRM_FORMAT_RGBA8888, modifier: MODIFIER_LINEAR },
            FormatModifier { fourcc: DRM_FORMAT_RGBX8888, modifier: MODIFIER_LINEAR },
        ],
    ensures
        is_advertised(fourcc, modifier) <==> list.contains(FormatModifier { fourcc, modifier }),
{
    let fm = FormatModifier { fourcc, modifier };
    if is_advertised(fourcc, modifier) {
        if fourcc == DRM_FORMAT_ARGB8888 {
            assert(list[0] == fm);
        } else if fourcc == DRM_FORMAT_XRGB8888 {
            assert(list[1] == fm);
        } else if fourcc == DRM_FORMAT_RGBA8888 {
            assert(list[2] == fm);
        } else {
            assert(list[3] == fm);
        }
    }
}

/// Why a DMA-BUF is refused at import.
#[derive(Debug, Clone, Copy, PartialEq, Eq, Structural)]
pub enum ImportError {
    /// Width or height is zero.
    EmptyBuffer,
    /// Only single-plane buffers are imported.
    MultiPlanar { planes: u32 },
    /// The format and modifier pair was not advertised.
    UnsupportedFormat { fourcc: u32, modifier: u64 },
}

/// Decides a `linux-dmabuf` import: a single-plane buffer with some area and
/// an advertised format and modifier pair is accepted, with the texture format
/// its fourcc maps to; anything else is refused, so the client is told the
/// import failed.
pub fn dmabuf_import(fourcc: u32, modifier: u64, planes: u32, width: u32, height: u32) -> (r: Result<
    TextureFormat,
    ImportError,
>)
    ensures
        (width == 0 || height == 0) ==> r == Err::<TextureFormat, ImportError>(ImportError::EmptyBuffer),
        width > 0 && height > 0 && planes != 1 ==> r == Err::<TextureFormat, ImportError>(
            ImportError::MultiPlanar { planes },
        ),
        width > 0 && height > 0 && planes == 1 && !is_advertised(fourcc, modifier) ==> r == Err::<
            TextureFormat,
            ImportError,
        >(ImportError::UnsupportedFormat { fourcc, modifier }),
        width > 0 && height > 0 && planes == 1 && is_advertised(fourcc, modifier) ==> r == Ok::<
            TextureFormat,
            ImportError,
        >(dmabuf_texture_spec(fourcc)),
{
    if width == 0 || height == 0 {
        return Err(ImportError::EmptyBuffer);
    }
    if planes != 1 {
        return Err(ImportError::MultiPlanar { planes });
    }
    let known = fourcc == DRM_FORMAT_ARGB8888 || fourcc == DRM_FORMAT_XRGB8888 || fourcc == DRM_FORMAT_RGBA8888
        || fourcc == DRM_FORMAT_RGBX8888;
    if modifier != MODIFIER_LINEAR || !known {
        return Err(ImportError::UnsupportedFormat { fourcc, modifier });
    }
    Ok(dmabuf_texture_format(fourcc))
}

} // verus!
