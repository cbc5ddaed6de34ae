use vstd::prelude::*;

verus! {

/// `VK_QUEUE_GRAPHICS_BIT`
pub const QUEUE_GRAPHICS: u32 = 1;

/// The number of memory types a device can report at most.
pub const MAX_MEMORY_TYPES: usize = 32;

/// Kinds of physical device, as the driver reports them.
#[derive(Debug, Clone, Copy, PartialEq, Eq, Structural)]
pub enum DeviceType {
    Other,
    IntegratedGpu,
    DiscreteGpu,
    VirtualGpu,
    Cpu,
}

/// Which kind of GPU the configuration asks for.
#[derive(Debug, Clone, Copy, PartialEq, Eq, Structural)]
pub enum GpuPreference {
    Discrete,
    Integrated,
    Any,
}

/// Reads a `VkPhysicalDeviceType`; unknown values are `Other`.
pub fn device_type_from_raw(raw: i32) -> (t: DeviceType)
    ensures
        t == (if raw == 1 {
            DeviceType::IntegratedGpu
        } else if raw == 2 {
            DeviceType::DiscreteGpu
        } else if raw == 3 {
            DeviceType::VirtualGpu
        } else if raw == 4 {
            DeviceType::Cpu
        } else {
            DeviceType::Other
        }),
{
    if raw == 1 {
        DeviceType::IntegratedGpu
    } else if raw == 2 {
        DeviceType::DiscreteGpu
    } else if raw == 3 {
        DeviceType::VirtualGpu
    } else if raw == 4 {
        DeviceType::Cpu
    } else {
        DeviceType::Other
    }
}

/// How much a device of type `t` is wanted: higher is better. Discrete beats
/// integrated, which beats virtual, which beats a software device; an
/// integrated preference swaps the first two; `Any` wants all alike.
pub open spec fn rank(pref: GpuPreference, t: DeviceType) -> u8 {
    match pref {
        GpuPreference::Any => 1,
        GpuPreference::Discrete => match t {
            DeviceType::DiscreteGpu => 4,
            DeviceType::IntegratedGpu => 3,
            DeviceType::VirtualGpu => 2,
            DeviceType::Cpu => 1,
            DeviceType::Other => 0,
        },
        GpuPreference::Integrated => match t {
            DeviceType::IntegratedGpu => 4,
            DeviceType::DiscreteGpu => 3,
            DeviceType::VirtualGpu => 2,
            DeviceType::Cpu => 1,
            DeviceType::Other => 0,
        },
    }
}

pub fn device_rank(pref: GpuPreference, t: DeviceType) -> (r: u8)
    ensures
        r == rank(pref, t),
{
    match pref {
        GpuPreference::Any => 1,
        GpuPreference::Discrete => match t {
            DeviceType::DiscreteGpu => 4,
            DeviceType::IntegratedGpu => 3,
            DeviceType::VirtualGpu => 2,
            DeviceType::Cpu => 1,
            DeviceType::Other => 0,
        },
        GpuPreference::Integrated => match t {
            DeviceType::IntegratedGpu => 4,
            DeviceType::DiscreteGpu => 3,
            DeviceType::VirtualGpu => 2,
            DeviceType::Cpu => 1,
            DeviceType::Other => 0,
        },
    }
}

/// A readable name for a device type.
pub fn device_type_name(t: DeviceType) -> (s: &'static str)
    ensures
        t == DeviceType::DiscreteGpu ==> s@ == "Discrete GPU"@,
        t == DeviceType::IntegratedGpu ==> s@ == "Integrated GPU"@,
        t == DeviceType::VirtualGpu ==> s@ == "Virtual GPU"@,
        t == DeviceType::Cpu ==> s@ == "CPU"@,
        t == DeviceType::Other ==> s@ == "Other"@,
{
    proof {
        reveal_strlit("Discrete GPU");
        reveal_strlit("Integrated GPU");
        reveal_strlit("Virtual GPU");
        reveal_strlit("CPU");
        reveal_strlit("Other");
    }
    match t {
        DeviceType::DiscreteGpu => "Discrete GPU",
        DeviceType::IntegratedGpu => "Integrated GPU",
        DeviceType::VirtualGpu => "Virtual GPU",
        DeviceType::Cpu => "CPU",
        DeviceType::Other => "Other",
    }
}

pub open spec fn has_graphics(flags: u32) -> bool {
    flags & QUEUE_GRAPHICS != 0
}

/// The first queue family with graphics support; presentation uses the same
/// family.
pub fn find_queue_families(families: &Vec<u32>) -> (r: Option<u32>)
    requires
        families@.len() <= u32::MAX,
    ensures
        r matches Some(i) ==> i < families@.len() && has_graphics(families@[i as int]) && forall|k: int|
            0 <= k < i ==> !has_graphics(#[trigger] families@[k]),
        r is None ==> forall|k: int| 0 <= k < families@.len() ==> !has_graphics(#[trigger] families@[k]),
{
    let mut i: usize = 0;
    while i < families.len()
        invariant
            i <= families.len(),
            families@.len() <= u32::MAX,
            forall|k: int| 0 <= k < i ==> !has_graphics(#[trigger] families@[k]),
        decreases families.len() - i,
    {
        if families[i] & QUEUE_GRAPHICS != 0 {
            return Some(i as u32);
        }
        i = i + 1;
    }
    None
}

/// What device selection needs to know of one physical device.
pub struct DeviceCandidate {
    pub device_type: DeviceType,
    /// Capability flags of each queue family, in the driver's order.
    pub queue_families: Vec<u32>,
}

/// A device can drive the compositor when one of its queue families does graphics.
pub open spec fn suitable(c: DeviceCandidate) -> bool {
    exists|k: int| 0 <= k < c.queue_families@.len() && has_graphics(#[trigger] c.queue_families@[k])
}

/// The chosen device and its graphics queue family.
#[derive(Debug, Clone, Copy, PartialEq, Eq, Structural)]
pub struct DeviceChoice {
    pub index: usize,
    pub queue_family: u32,
}

/// Chooses among `candidates` the suitable device of highest rank, the first
/// one on a tie, with its first graphics queue family. `None` when no device
/// is suitable.
pub fn select_physical_device(pref: GpuPreference, candidates: &Vec<DeviceCandidate>) -> (r: Option<DeviceChoice>)
    requires
        forall|i: int| 0 <= i < candidates@.len() ==> (#[trigger] candidates@[i]).queue_families@.len() <= u32::MAX,
    ensures
        r is None <==> forall|i: int| 0 <= i < candidates@.len() ==> !suitable(#[trigger] candidates@[i]),
        r matches Some(ch) ==> {
            let c = candidates@[ch.index as int];
            &&& ch.index < candidates@.len()
            &&& suitable(c)
            &&& ch.queue_family < c.queue_families@.len()
            &&& has_graphics(c.queue_families@[ch.queue_family as int])
            &&& forall|k: int| 0 <= k < ch.queue_family ==> !has_graphics(#[trigger] c.queue_families@[k])
            &&& forall|j: int|
                0 <= j < candidates@.len() && suitable(#[trigger] candidates@[j]) ==> rank(pref, candidates@[j].device_type)
                    <= rank(pref, c.device_type)
            &&& forall|j: int|
                0 <= j < ch.index && suitable(#[trigger] candidates@[j]) ==> rank(pref, candidates@[j].device_type)
                    < rank(pref, c.device_type)
        },
{
    let mut best: Option<DeviceChoice> = None;
    let mut best_rank: u8 = 0;
    let mut i: usize = 0;
    while i < candidates.len()
        invariant
            i <= candidates.len(),
            forall|j: int| 0 <= j < candidates@.len() ==> (#[trigger] candidates@[j]).queue_families@.len() <= u32::MAX,
            best is None ==> forall|j: int| 0 <= j < i ==> !suitable(#[trigger] candidates@[j]),
            best matches Some(ch) ==> {
                let c = candidates@[ch.index as int];
                &&& ch.index < i
                &&& suitable(c)
                &&& best_rank == rank(pref, c.device_type)
                &&& ch.queue_family < c.queue_families@.len()
                &&& has_graphics(c.queue_families@[ch.queue_family as int])
                &&& forall|k: int| 0 <= k < ch.queue_family ==> !has_graphics(#[trigger] c.queue_families@[k])
                &&& forall|j: int|
                    0 <= j < i && suitable(#[trigger] candidates@[j]) ==> rank(pref, candidates@[j].device_type)
                        <= best_rank
                &&& forall|j: int|
                    0 <= j < ch.index && suitable(#[trigger] candidates@[j]) ==> rank(pref, candidates@[j].device_type)
                        < best_rank
            },
        decreases candidates.len() - i,
    {
        let c = &candidates[i];
        match find_queue_families(&c.queue_families) {
            Some(q) => {
                let r = device_rank(pref, c.device_type);
                let better = match best {
                    None => true,
                    Some(_) => r > best_rank,
                };
                if better {
                    best = Some(DeviceChoice { index: i, queue_family: q });
                    best_rank = r;
                }
            },
            None => {},
        }
        i = i + 1;
    }
    best
}

/// A packed Vulkan version split into major (7 bits from bit 22), minor
/// (10 bits from bit 12) and patch (the low 12 bits); the variant in the top
/// three bits is dropped.
pub fn api_version_parts(version: u32) -> (r: (u32, u32, u32))
    ensures
        r.0 == (version / 0x40_0000) % 0x80,
        r.1 == (version / 0x1000) % 0x400,
        r.2 == version % 0x1000,
{
    ((version / 0x40_0000) % 0x80, (version / 0x1000) % 0x400, version % 0x1000)
}

/// Memory type `i` may back a resource whose allowed types are `type_filter`.
pub open spec fn type_allowed(type_filter: u32, i: u32) -> bool {
    (type_filter >> i) & 1 == 1
}

/// Flags `flags` include all of `required`.
pub open spec fn has_flags(flags: u32, required: u32) -> bool {
    flags & required == required
}

/// The first memory type that the resource allows and that has all the
/// `required` property flags; `type_flags` lists each type's flags.
pub fn find_memory_type(type_filter: u32, type_flags: &Vec<u32>, required: u32) -> (r: Option<u32>)
    requires
        type_flags@.len() <= MAX_MEMORY_TYPES,
    ensures
        r matches Some(i) ==> i < type_flags@.len() && type_allowed(type_filter, i) && has_flags(
            type_flags@[i as int],
            required,
        ) && forall|k: u32|
            k < i ==> !(type_allowed(type_filter, k) && has_flags(#[trigger] type_flags@[k as int], required)),
        r is None ==> forall|k: u32|
            k < type_flags@.len() ==> !(type_allowed(type_filter, k) && has_flags(
                #[trigger] type_flags@[k as int],
                required,
            )),
{
    let n = type_flags.len() as u32;
    let mut i: u32 = 0;
    while i < n
        invariant
            i <= n,
            n == type_flags@.len(),
            n <= 32,
            forall|k: u32|
                k < i ==> !(type_allowed(type_filter, k) && has_flags(#[trigger] type_flags@[k as int], required)),
        decreases n - i,
    {
        if (type_filter >> i) & 1 == 1 && type_flags[i as usize] & required == required {
            return Some(i);
        }
        i = i + 1;
    }
    None
}

} // verus!
