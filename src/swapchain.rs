use vstd::prelude::*;

verus! {

/// `VK_FORMAT_R8G8B8A8_SRGB`
pub const FORMAT_R8G8B8A8_SRGB: i32 = 43;

/// `VK_FORMAT_B8G8R8A8_SRGB`
pub const FORMAT_B8G8R8A8_SRGB: i32 = 50;

/// `VK_COLOR_SPACE_SRGB_NONLINEAR_KHR`
pub const COLOR_SPACE_SRGB_NONLINEAR: i32 = 0;

/// `VK_PRESENT_MODE_MAILBOX_KHR`
pub const PRESENT_MODE_MAILBOX: i32 = 1;

/// `VK_PRESENT_MODE_FIFO_KHR`, which every presentation engine supports.
pub const PRESENT_MODE_FIFO: i32 = 2;

/// A format and colour space pair a surface supports.
#[derive(Debug, Clone, Copy, PartialEq, Eq, Structural)]
pub struct SurfaceFormat {
    pub format: i32,
    pub color_space: i32,
}

/// A width and height in pixels.
#[derive(Debug, Clone, Copy, PartialEq, Eq, Structural)]
pub struct Extent {
    pub width: u32,
    pub height: u32,
}

/// What a surface allows for its swapchains.
#[derive(Debug, Clone, Copy, PartialEq, Eq, Structural)]
pub struct SurfaceCapabilities {
    pub min_image_count: u32,
    /// Zero when there is no upper bound.
    pub max_image_count: u32,
    /// `u32::MAX` wide when the swapchain decides the size.
    pub current_extent: Extent,
    pub min_image_extent: Extent,
    pub max_image_extent: Extent,
}

pub open spec fn srgb_bgra() -> SurfaceFormat {
    SurfaceFormat { format: FORMAT_B8G8R8A8_SRGB, color_space: COLOR_SPACE_SRGB_NONLINEAR }
}

pub open spec fn srgb_rgba() -> SurfaceFormat {
    SurfaceFormat { format: FORMAT_R8G8B8A8_SRGB, color_space: COLOR_SPACE_SRGB_NONLINEAR }
}

fn position_of(formats: &Vec<SurfaceFormat>, wanted: SurfaceFormat) -> (r: Option<usize>)
    ensures
        r matches Some(i) ==> i < formats@.len() && formats@[i as int] == wanted,
        r is None ==> !formats@.contains(wanted),
{
    let mut i: usize = 0;
    while i < formats.len()
        invariant
            i <= formats.len(),
            forall|k: int| 0 <= k < i ==> formats@[k] != wanted,
        decreases formats.len() - i,
    {
        if formats[i] == wanted {
            return Some(i);
        }
        i = i + 1;
    }
    None
}

/// Picks the swapchain format: 8-bit sRGB BGRA, else 8-bit sRGB RGBA, else
/// the surface's first format.
pub fn choose_surface_format(formats: &Vec<SurfaceFormat>) -> (r: SurfaceFormat)
    requires
        formats@.len() > 0,
    ensures
        r == (if formats@.contains(srgb_bgra()) {
            srgb_bgra()
        } else if formats@.contains(srgb_rgba()) {
            srgb_rgba()
        } else {
            formats@[0]
        }),
{
    let bgra = SurfaceFormat { format: FORMAT_B8G8R8A8_SRGB, color_space: COLOR_SPACE_SRGB_NONLINEAR };
    let rgba = SurfaceFormat { format: FORMAT_R8G8B8A8_SRGB, color_space: COLOR_SPACE_SRGB_NONLINEAR };
    match position_of(formats, bgra) {
        Some(i) => formats[i],
        None => match position_of(formats, rgba) {
            Some(i) => formats[i],
            None => formats[0],
        },
    }
}

/// Mailbox when the surface offers it, FIFO otherwise.
pub fn choose_present_mode(present_modes: &Vec<i32>) -> (r: i32)
    ensures
        r == (if present_modes@.contains(PRESENT_MODE_MAILBOX) {
            PRESENT_MODE_MAILBOX
        } else {
            PRESENT_MODE_FIFO
        }),
{
    let mut i: usize = 0;
    while i < present_modes.len()
        invariant
            i <= present_modes.len(),
            forall|k: int| 0 <= k < i ==> present_modes@[k] != PRESENT_MODE_MAILBOX,
        decreases present_modes.len() - i,
    {
        if present_modes[i] == PRESENT_MODE_MAILBOX {
            return PRESENT_MODE_MAILBOX;
        }
        i = i + 1;
    }
    PRESENT_MODE_FIFO
}

pub open spec fn clamp_spec(v: u32, lo: u32, hi: u32) -> u32 {
    if v < lo {
        lo
    } else if v > hi {
        hi
    } else {
        v
    }
}

/// The surface's own extent when it has one, else the requested size clamped
/// to the allowed range.
pub fn choose_extent(capabilities: &SurfaceCapabilities, width: u32, height: u32) -> (r: Extent)
    requires
        capabilities.current_extent.width == u32::MAX ==> capabilities.min_image_extent.width
            <= capabilities.max_image_extent.width && capabilities.min_image_extent.height
            <= capabilities.max_image_extent.height,
    ensures
        r == (if capabilities.current_extent.width != u32::MAX {
            capabilities.current_extent
        } else {
            Extent {
                width: clamp_spec(width, capabilities.min_image_extent.width, capabilities.max_image_extent.width),
                height: clamp_spec(height, capabilities.min_image_extent.height, capabilities.max_image_extent.height),
            }
        }),
{
    if capabilities.current_extent.width != u32::MAX {
        capabilities.current_extent
    } else {
        let lo = capabilities.min_image_extent;
        let hi = capabilities.max_image_extent;
        let w = if width < lo.width {
            lo.width
        } else if width > hi.width {
            hi.width
        } else {
            width
        };
        let h = if height < lo.height {
            lo.height
        } else if height > hi.height {
            hi.height
        } else {
            height
        };
        Extent { width: w, height: h }
    }
}

/// One image more than the minimum, for triple buffering, unless the
/// surface's maximum is lower.
pub fn choose_image_count(capabilities: &SurfaceCapabilities) -> (r: u32)
    requires
        capabilities.min_image_count < u32::MAX,
    ensures
        r == (if capabilities.max_image_count > 0 && capabilities.min_image_count + 1
            > capabilities.max_image_count {
            capabilities.max_image_count as int
        } else {
            capabilities.min_image_count + 1
        }),
{
    let mut count = capabilities.min_image_count + 1;
    if capabilities.max_image_count > 0 && count > capabilities.max_image_count {
        count = capabilities.max_image_count;
    }
    count
}

/// A swapchain is only built for a surface with some area.
pub fn should_create_swapchain(width: u32, height: u32) -> (r: bool)
    ensures
        r == (width > 0 && height > 0),
{
    width > 0 && height > 0
}

/// The settings a swapchain is created with.
#[derive(Debug, Clone, Copy, PartialEq, Eq, Structural)]
pub struct SwapchainPlan {
    pub format: SurfaceFormat,
    pub present_mode: i32,
    pub extent: Extent,
    pub image_count: u32,
}

/// All swapchain choices for a surface of the requested size; `None` for a
/// zero-area surface, which gets no swapchain.
pub fn plan_swapchain(
    capabilities: &SurfaceCapabilities,
    formats: &Vec<SurfaceFormat>,
    present_modes: &Vec<i32>,
    width: u32,
    height: u32,
) -> (r: Option<SwapchainPlan>)
    requires
        formats@.len() > 0,
        capabilities.min_image_count < u32::MAX,
        capabilities.current_extent.width == u32::MAX ==> capabilities.min_image_extent.width
            <= capabilities.max_image_extent.width && capabilities.min_image_extent.height
            <= capabilities.max_image_extent.height,
    ensures
        (width == 0 || height == 0) <==> r is None,
        r matches Some(p) ==> {
            &&& p.format == (if formats@.contains(srgb_bgra()) {
                srgb_bgra()
            } else if formats@.contains(srgb_rgba()) {
                srgb_rgba()
            } else {
                formats@[0]
            })
            &&& p.present_mode == (if present_modes@.contains(PRESENT_MODE_MAILBOX) {
                PRESENT_MODE_MAILBOX
            } else {
                PRESENT_MODE_FIFO
            })
            &&& p.extent == (if capabilities.current_extent.width != u32::MAX {
                capabilities.current_extent
            } else {
                Extent {
                    width: clamp_spec(width, capabilities.min_image_extent.width, capabilities.max_image_extent.width),
                    height: clamp_spec(height, capabilities.min_image_extent.height, capabilities.max_image_extent.height),
                }
            })
            &&& p.image_count == (if capabilities.max_image_count > 0 && capabilities.min_image_count + 1
                > capabilities.max_image_count {
                capabilities.max_image_count as int
            } else {
                capabilities.min_image_count + 1
            })
        },
{
    if !should_create_swapchain(width, height) {
        return None;
    }
    Some(SwapchainPlan {
        format: choose_surface_format(formats),
        present_mode: choose_present_mode(present_modes),
        extent: choose_extent(capabilities, width, height),
        image_count: choose_image_count(capabilities),
    })
}

} // verus!
