use vstd::prelude::*;

verus! {

/// The denominator of fractional scales: a scale of 1.5 is 180.
pub const SCALE_DENOMINATOR: u32 = 120;

/// How subpixels are laid out on a panel.
#[derive(Debug, Clone, Copy, PartialEq, Eq, Structural)]
pub enum Subpixel {
    Unknown,
    NoSubpixels,
    HorizontalRgb,
    HorizontalBgr,
    VerticalRgb,
    VerticalBgr,
}

/// A display mode: resolution and refresh rate in millihertz.
#[derive(Debug, Clone, Copy, PartialEq, Eq, Structural)]
pub struct Mode {
    pub width: u32,
    pub height: u32,
    pub refresh_mhz: u32,
}

/// A logical display.
#[derive(Debug, Clone, Copy, PartialEq, Eq, Structural)]
pub struct Output {
    pub physical_width_mm: u32,
    pub physical_height_mm: u32,
    pub preferred_mode: Mode,
    pub current_mode: Mode,
    /// Scale factor in 120ths.
    pub scale: u32,
    pub subpixel: Subpixel,
    /// Position of the top-left corner in the global space.
    pub x: i32,
    pub y: i32,
}

impl Output {
    /// An output at the origin showing its preferred mode at scale 1.
    pub fn new(physical_width_mm: u32, physical_height_mm: u32, preferred_mode: Mode) -> (o: Self)
        ensures
            o == (Output {
                physical_width_mm,
                physical_height_mm,
                preferred_mode,
                current_mode: preferred_mode,
                scale: SCALE_DENOMINATOR,
                subpixel: Subpixel::Unknown,
                x: 0,
                y: 0,
            }),
    {
        Output {
            physical_width_mm,
            physical_height_mm,
            preferred_mode,
            current_mode: preferred_mode,
            scale: SCALE_DENOMINATOR,
            subpixel: Subpixel::Unknown,
            x: 0,
            y: 0,
        }
    }

    /// The scale announced to a client through `wp_fractional_scale_v1`:
    /// the protocol's `preferred_scale` is in 120ths (1.5 is sent as 180),
    /// which is how this output stores its scale, so it is sent unchanged.
    /// Another denominator would make clients render at the wrong scale.
    pub fn preferred_fractional_scale(&self) -> (r: u32)
        ensures
            r == self.scale,
    {
        self.scale
    }

    /// The size in logical pixels: the mode's size divided by the scale,
    /// rounded down.
    pub fn logical_size(&self) -> (r: (u64, u64))
        requires
            self.scale > 0,
        ensures
            r.0 == self.current_mode.width as int * SCALE_DENOMINATOR as int / self.scale as int,
            r.1 == self.current_mode.height as int * SCALE_DENOMINATOR as int / self.scale as int,
    {
        let w = (self.current_mode.width as u64 * SCALE_DENOMINATOR as u64) / self.scale as u64;
        let h = (self.current_mode.height as u64 * SCALE_DENOMINATOR as u64) / self.scale as u64;
        (w, h)
    }
}

} // verus!
