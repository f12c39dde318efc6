//! Choosing the device, the queue family and the memory type, and the errors
//! of the engine.
//!
//! Queue capabilities and memory properties are the bit masks that the
//! graphics interface reports.

use vstd::prelude::*;

verus! {

/// The bit of a queue family that supports graphics operations.
pub const QUEUE_GRAPHICS: u32 = 0x1;

/// The largest number of memory types that a device reports.
pub const MAX_MEMORY_TYPES: usize = 32;

/// The result code of a device that was lost.
pub const ERROR_DEVICE_LOST: i32 = -4;

/// The result code of a wait that ran out of time.
pub const TIMEOUT: i32 = 2;

/// Why the engine failed.
#[derive(Debug, Clone, Copy, PartialEq, Eq, Structural)]
pub enum VulkanError {
    /// The graphics library could not be loaded.
    LoadError,
    /// A call into the graphics interface failed with this result code.
    VkError(i32),
    /// The machine has no graphics device.
    NoPhysicalDevice,
    /// No device has a queue family that supports graphics.
    NoSuitableQueueFamily,
    /// No memory type meets the requirements.
    NoSuitableMemoryType,
    /// A file or a raster could not be read.
    IoError,
    /// The allocator could not provide memory.
    AllocationError,
}

impl VulkanError {
    /// The failure leaves the state of the device unknown, so that the
    /// renderer cannot serve another tile: the device was lost.
    pub open spec fn fatal(self) -> bool {
        self == VulkanError::VkError(ERROR_DEVICE_LOST)
    }

    /// Whether the failure ends the use of the renderer.
    pub fn is_fatal(&self) -> (r: bool)
        ensures
            r == self.fatal(),
    {
        match self {
            VulkanError::VkError(code) => *code == ERROR_DEVICE_LOST,
            _ => false,
        }
    }
}

/// The queue family supports graphics.
pub open spec fn supports_graphics(queue_flags: u32) -> bool {
    queue_flags & QUEUE_GRAPHICS != 0
}

/// The queue family `family` of device `device` supports graphics, and none
/// before it does: no family of an earlier device, and no earlier family of
/// this one.
pub open spec fn first_graphics_family(
    devices: Seq<Seq<u32>>,
    device: int,
    family: int,
) -> bool {
    &&& 0 <= device < devices.len()
    &&& 0 <= family < devices[device].len()
    &&& supports_graphics(devices[device][family])
    &&& forall|f: int| 0 <= f < family ==> !supports_graphics(#[trigger] devices[device][f])
    &&& forall|d: int, f: int|
        0 <= d < device && 0 <= f < devices[d].len() ==> !supports_graphics(
            #[trigger] devices[d][f],
        )
}

/// The queue flags of each family of each device, as sequences.
pub open spec fn family_views(devices: Seq<Vec<u32>>) -> Seq<Seq<u32>> {
    devices.map_values(|families: Vec<u32>| families@)
}

/// Picks the device to render on and its queue family, given the queue flags
/// of every family of every device: the first family that supports graphics,
/// devices in the order given. The result is the place of the device and the
/// number of the family.
pub fn find_suitable_physical_device(devices: &[Vec<u32>]) -> (r: Result<(usize, u32), VulkanError>)
    requires
        forall|d: int| 0 <= d < devices@.len() ==> (#[trigger] devices@[d])@.len() <= u32::MAX,
    ensures
        match r {
            Ok((device, family)) => first_graphics_family(
                family_views(devices@),
                device as int,
                family as int,
            ),
            Err(e) => {
                &&& e == (if devices@.len() == 0 {
                    VulkanError::NoPhysicalDevice
                } else {
                    VulkanError::NoSuitableQueueFamily
                })
                &&& forall|d: int, f: int|
                    0 <= d < devices@.len() && 0 <= f < devices@[d]@.len() ==> !supports_graphics(
                        #[trigger] devices@[d]@[f],
                    )
            },
        },
{
    if devices.len() == 0 {
        return Err(VulkanError::NoPhysicalDevice);
    }
    let mut d: usize = 0;
    while d < devices.len()
        invariant
            d <= devices@.len(),
            forall|d: int| 0 <= d < devices@.len() ==> (#[trigger] devices@[d])@.len() <= u32::MAX,
            forall|e: int, f: int|
                0 <= e < d && 0 <= f < devices@[e]@.len() ==> !supports_graphics(
                    #[trigger] devices@[e]@[f],
                ),
        decreases devices@.len() - d,
    {
        let families: &Vec<u32> = &devices[d];
        let mut f: usize = 0;
        while f < families.len()
            invariant
                f <= families@.len(),
                families@.len() <= u32::MAX,
                d < devices@.len(),
                families@ == devices@[d as int]@,
                forall|g: int| 0 <= g < f ==> !supports_graphics(#[trigger] families@[g]),
                forall|e: int, g: int|
                    0 <= e < d && 0 <= g < devices@[e]@.len() ==> !supports_graphics(
                        #[trigger] devices@[e]@[g],
                    ),
            decreases families@.len() - f,
        {
            if families[f] & QUEUE_GRAPHICS != 0 {
                proof {
                    let views = family_views(devices@);
                    assert(views[d as int] == families@);
                    assert forall|e: int, g: int|
                        0 <= e < d && 0 <= g < views[e].len() implies !supports_graphics(
                        #[trigger] views[e][g],
                    ) by {
                        assert(views[e] == devices@[e]@);
                    }
                }
                return Ok((d, f as u32));
            }
            f = f + 1;
        }
        d = d + 1;
    }
    Err(VulkanError::NoSuitableQueueFamily)
}

/// The memory type `i` is allowed by the filter and has all the properties
/// asked for.
pub open spec fn memory_type_suits(
    type_filter: u32,
    properties: u32,
    memory_types: Seq<u32>,
    i: int,
) -> bool {
    &&& 0 <= i < memory_types.len()
    &&& i < 32
    &&& type_filter & (1u32 << (i as u32)) != 0
    &&& memory_types[i] & properties == properties
}

/// The first memory type that the filter allows and that has all the
/// properties asked for, given the property flags of each memory type of the
/// device.
pub fn find_memory_type(memory_types: &[u32], type_filter: u32, properties: u32) -> (r: Option<u32>)
    requires
        memory_types@.len() <= MAX_MEMORY_TYPES,
    ensures
        match r {
            Some(i) => {
                &&& memory_type_suits(type_filter, properties, memory_types@, i as int)
                &&& forall|j: int|
                    0 <= j < i ==> !memory_type_suits(type_filter, properties, memory_types@, j)
            },
            None => forall|j: int|
                0 <= j < memory_types@.len() ==> !memory_type_suits(
                    type_filter,
                    properties,
                    memory_types@,
                    j,
                ),
        },
{
    let mut i: u32 = 0;
    while (i as usize) < memory_types.len()
        invariant
            i <= memory_types@.len() <= 32,
            forall|j: int|
                0 <= j < i ==> !memory_type_suits(type_filter, properties, memory_types@, j),
        decreases memory_types@.len() - i,
    {
        if (type_filter & (1u32 << i)) != 0 && (memory_types[i as usize] & properties)
            == properties {
            return Some(i);
        }
        i = i + 1;
    }
    None
}

} // verus!
