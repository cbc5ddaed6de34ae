use vstd::prelude::*;
use crate::device::GpuPreference;
use vstd::string::StringSliceAdditionalSpecFns;

verus! {

/// Why a configuration value was rejected.
#[derive(Debug, Clone, Copy, PartialEq, Eq, Structural)]
pub enum ConfigError {
    /// A refresh rate of zero.
    ZeroRefreshRate,
    /// A frame-rate cap of zero.
    ZeroMaxFps,
    /// The width of a `WIDTHxHEIGHT` override is not a `u32`.
    InvalidResolutionWidth,
    /// The height of a `WIDTHxHEIGHT` override is not a `u32`.
    InvalidResolutionHeight,
    /// A GPU preference other than `discrete`, `integrated` or `any`.
    UnknownGpuPreference,
}

/// The GPU preferences a configuration may name.
pub open spec fn known_gpu_preference(p: Seq<char>) -> bool {
    p == "discrete"@ || p == "integrated"@ || p == "any"@
}

/// Display options with integer values.
#[derive(Debug, Clone, Copy, PartialEq, Eq, Structural)]
pub struct DisplayModeConfig {
    pub width: u32,
    pub height: u32,
    /// Refresh rate in Hz.
    pub refresh_rate: u32,
    pub vsync: bool,
    pub adaptive_sync: bool,
}

impl DisplayModeConfig {
    /// 3840x2160 at 60 Hz with vsync and adaptive sync.
    pub fn default_mode() -> (c: Self)
        ensures
            c == (DisplayModeConfig {
                width: 3840,
                height: 2160,
                refresh_rate: 60,
                vsync: true,
                adaptive_sync: true,
            }),
    {
        DisplayModeConfig { width: 3840, height: 2160, refresh_rate: 60, vsync: true, adaptive_sync: true }
    }

    /// The refresh rate must be positive.
    pub fn validate(&self) -> (r: Result<(), ConfigError>)
        ensures
            r is Ok <==> self.refresh_rate > 0,
            r is Err ==> r == Err::<(), ConfigError>(ConfigError::ZeroRefreshRate),
    {
        if self.refresh_rate == 0 {
            Err(ConfigError::ZeroRefreshRate)
        } else {
            Ok(())
        }
    }
}

/// Performance options.
pub struct PerformanceConfig {
    pub gpu_acceleration: bool,
    /// `discrete`, `integrated` or `any`.
    pub vulkan_device_preference: String,
    pub max_fps: u32,
    pub frame_limiting: bool,
    /// Size of the GPU memory pool in MiB.
    pub memory_pool_size: u64,
    pub profiling: bool,
}

impl Default for PerformanceConfig {
    fn default() -> (c: Self)
        ensures
            c.gpu_acceleration,
            c.vulkan_device_preference@ == "discrete"@,
            c.max_fps == 120,
            c.frame_limiting,
            c.memory_pool_size == 512,
            !c.profiling,
    {
        PerformanceConfig {
            gpu_acceleration: true,
            vulkan_device_preference: String::from_str("discrete"),
            max_fps: 120,
            frame_limiting: true,
            memory_pool_size: 512,
            profiling: false,
        }
    }
}

impl PerformanceConfig {
    /// The frame-rate cap must be positive and the GPU preference one of
    /// `discrete`, `integrated` or `any`; the cap is checked first.
    pub fn validate(&self) -> (r: Result<(), ConfigError>)
        ensures
            r is Ok <==> self.max_fps > 0 && known_gpu_preference(self.vulkan_device_preference@),
            self.max_fps == 0 ==> r == Err::<(), ConfigError>(ConfigError::ZeroMaxFps),
            self.max_fps > 0 && !known_gpu_preference(self.vulkan_device_preference@) ==> r == Err::<
                (),
                ConfigError,
            >(ConfigError::UnknownGpuPreference),
    {
        if self.max_fps == 0 {
            return Err(ConfigError::ZeroMaxFps);
        }
        let discrete = String::from_str("discrete");
        let integrated = String::from_str("integrated");
        let any = String::from_str("any");
        if self.vulkan_device_preference == discrete || self.vulkan_device_preference == integrated
            || self.vulkan_device_preference == any {
            Ok(())
        } else {
            Err(ConfigError::UnknownGpuPreference)
        }
    }

    /// The preferred kind of GPU. A configuration that passed `validate`
    /// names one of the three; any other value reads as discrete, the default.
    pub fn gpu_preference(&self) -> (p: GpuPreference)
        ensures
            p == (if self.vulkan_device_preference@ == "integrated"@ {
                GpuPreference::Integrated
            } else if self.vulkan_device_preference@ == "any"@ {
                GpuPreference::Any
            } else {
                GpuPreference::Discrete
            }),
    {
        let integrated = String::from_str("integrated");
        let any = String::from_str("any");
        if self.vulkan_device_preference == integrated {
            GpuPreference::Integrated
        } else if self.vulkan_device_preference == any {
            GpuPreference::Any
        } else {
            GpuPreference::Discrete
        }
    }
}

/// Reads a boolean override: exactly `false` disables, anything else enables.
pub fn flag_override(s: &str) -> (b: bool)
    ensures
        b == (s@ != "false"@),
{
    let t = s.to_owned();
    let f = String::from_str("false");
    !(t == f)
}

pub open spec fn is_digit(b: u8) -> bool {
    48 <= b <= 57
}

/// The number the decimal digits `s` spell.
pub open spec fn decimal_value(s: Seq<u8>) -> int
    decreases s.len(),
{
    if s.len() == 0 {
        0
    } else {
        decimal_value(s.drop_last()) * 10 + (s.last() - 48)
    }
}

pub open spec fn all_digits(s: Seq<u8>) -> bool {
    forall|i: int| 0 <= i < s.len() ==> is_digit(#[trigger] s[i])
}

/// The `u32` a text denotes, as `u32::from_str` reads it: an optional `+`,
/// then one or more decimal digits, with a value that fits.
pub open spec fn u32_text(s: Seq<u8>) -> Option<u32> {
    if s.len() > 0 && s[0] == 43 {
        digits_u32(s.drop_first())
    } else {
        digits_u32(s)
    }
}

/// The `u32` that one or more decimal digits spell, if it fits.
pub open spec fn digits_u32(d: Seq<u8>) -> Option<u32> {
    if d.len() > 0 && all_digits(d) && decimal_value(d) <= u32::MAX {
        Some(decimal_value(d) as u32)
    } else {
        None
    }
}

proof fn lemma_decimal_grows(s: Seq<u8>, k: int)
    requires
        0 <= k <= s.len(),
        all_digits(s),
    ensures
        decimal_value(s.subrange(0, k)) <= decimal_value(s),
        decimal_value(s) >= 0,
    decreases s.len() - k,
{
    if k < s.len() {
        let t = s.subrange(0, k + 1);
        assert(t.drop_last() =~= s.subrange(0, k));
        lemma_decimal_nonneg(s.subrange(0, k));
        lemma_decimal_grows(s, k + 1);
    } else {
        assert(s.subrange(0, k) =~= s);
        lemma_decimal_nonneg(s);
    }
}

proof fn lemma_decimal_nonneg(s: Seq<u8>)
    requires
        all_digits(s),
    ensures
        decimal_value(s) >= 0,
    decreases s.len(),
{
    if s.len() > 0 {
        lemma_decimal_nonneg(s.drop_last());
    }
}

/// Parses `b[start..end]` as a `u32` the way `u32::from_str` does.
pub(crate) fn parse_u32(b: &[u8], start: usize, end: usize) -> (r: Option<u32>)
    requires
        start <= end <= b@.len(),
    ensures
        r == u32_text(b@.subrange(start as int, end as int)),
{
    let ghost s = b@.subrange(start as int, end as int);
    let mut i = start;
    if i < end && b[i] == 43 {
        i = i + 1;
    }
    let ghost d = b@.subrange(i as int, end as int);
    proof {
        if s.len() > 0 && s[0] == 43 {
            assert(d =~= s.drop_first());
        } else {
            assert(d =~= s);
        }
    }
    if i == end {
        return None;
    }
    let first = i;
    let mut acc: u64 = 0;
    while i < end
        invariant
            first <= i <= end <= b@.len(),
            d == b@.subrange(first as int, end as int),
            u32_text(b@.subrange(start as int, end as int)) == digits_u32(d),
            all_digits(b@.subrange(first as int, i as int)),
            acc == decimal_value(b@.subrange(first as int, i as int)),
            acc <= u32::MAX,
        decreases end - i,
    {
        let c = b[i];
        proof {
            assert(b@.subrange(first as int, i + 1).drop_last() =~= b@.subrange(first as int, i as int));
        }
        if c < 48 || c > 57 {
            proof {
                assert(d[i - first] == c);
                assert(!is_digit(d[i - first]));
            }
            return None;
        }
        acc = acc * 10 + (c - 48) as u64;
        i = i + 1;
        proof {
            assert(all_digits(b@.subrange(first as int, i as int))) by {
                assert forall|k: int| 0 <= k < i - first implies is_digit(#[trigger] b@.subrange(first as int, i as int)[k]) by {
                    if k < i - 1 - first {
                        assert(b@.subrange(first as int, i as int)[k] == b@.subrange(first as int, i - 1)[k]);
                    }
                }
            }
        }
        if acc > 0xffff_ffff {
            proof {
                if all_digits(d) {
                    assert(b@.subrange(first as int, i as int) =~= d.subrange(0, i - first));
                    lemma_decimal_grows(d, i - first);
                }
            }
            return None;
        }
    }
    proof {
        assert(b@.subrange(first as int, i as int) =~= d);
    }
    Some(acc as u32)
}

/// `s` holds exactly one `x`, at position `k`.
pub open spec fn single_x_at(s: Seq<u8>, k: int) -> bool {
    &&& 0 <= k < s.len()
    &&& s[k] == 120
    &&& forall|j: int| 0 <= j < s.len() && j != k ==> #[trigger] s[j] != 120
}

/// What a `WIDTHxHEIGHT` override means: no change unless the text splits
/// into exactly two parts at `x`; an error when either part is not a `u32`.
pub open spec fn resolution_override_spec(s: Seq<u8>) -> Result<Option<(u32, u32)>, ConfigError> {
    if exists|k: int| single_x_at(s, k) {
        let k = choose|k: int| single_x_at(s, k);
        match u32_text(s.subrange(0, k)) {
            None => Err(ConfigError::InvalidResolutionWidth),
            Some(w) => match u32_text(s.subrange(k + 1, s.len() as int)) {
                None => Err(ConfigError::InvalidResolutionHeight),
                Some(h) => Ok(Some((w, h))),
            },
        }
    } else {
        Ok(None)
    }
}

/// Reads a `WIDTHxHEIGHT` resolution override.
pub fn parse_resolution_override(text: &str) -> (r: Result<Option<(u32, u32)>, ConfigError>)
    ensures
        r == resolution_override_spec(text.spec_bytes()),
{
    let b = text.as_bytes();
    let ghost s = b@;
    let mut count: usize = 0;
    let mut pos: usize = 0;
    let mut i: usize = 0;
    while i < b.len()
        invariant
            s == b@,
            i <= s.len(),
            count <= i,
            count == 0 ==> forall|j: int| 0 <= j < i ==> #[trigger] s[j] != 120,
            count == 1 ==> pos < i && s[pos as int] == 120 && forall|j: int|
                0 <= j < i && j != pos ==> #[trigger] s[j] != 120,
            count >= 2 ==> pos < i && s[pos as int] == 120 && exists|j: int|
                0 <= j < i && j != pos && #[trigger] s[j] == 120,
        decreases s.len() - i,
    {
        if b[i] == 120 {
            if count == 1 {
                proof {
                    assert(s[i as int] == 120);
                }
            }
            if count == 0 {
                pos = i;
            }
            if count < 2 {
                count = count + 1;
            }
        }
        i = i + 1;
    }
    if count != 1 {
        proof {
            if count == 0 {
                assert(!exists|k: int| single_x_at(s, k));
            } else {
                let j = choose|j: int| 0 <= j < i && j != pos && #[trigger] s[j] == 120;
                assert forall|k: int| !single_x_at(s, k) by {
                    if single_x_at(s, k) {
                        if k != pos {
                            assert(s[pos as int] != 120);
                        } else {
                            assert(s[j] != 120);
                        }
                    }
                }
            }
        }
        return Ok(None);
    }
    proof {
        assert(single_x_at(s, pos as int));
        assert forall|k: int| single_x_at(s, k) implies k == pos by {
            if k != pos {
                assert(s[pos as int] != 120);
            }
        }
    }
    match parse_u32(b, 0, pos) {
        None => Err(ConfigError::InvalidResolutionWidth),
        Some(w) => match parse_u32(b, pos + 1, b.len()) {
            None => Err(ConfigError::InvalidResolutionHeight),
            Some(h) => Ok(Some((w, h))),
        },
    }
}

} // verus!
