//! Which physical device and which of its queue families the self-test uses.
use vstd::prelude::*;

verus! {

/// Position, among the physical devices of the machine, of the one the
/// self-test runs on.
pub const DEVICE_INDEX: usize = 0;

/// The physical device to use on a machine that has `available` of them: the
/// one at `DEVICE_INDEX`. A machine without such a device cannot run the
/// self-test, so the caller has to have found one.
pub fn select_physical_device(available: usize) -> (index: usize)
    requires
        DEVICE_INDEX < available,
    ensures
        index == DEVICE_INDEX,
{
    DEVICE_INDEX
}

/// What the selection reads of one queue family of a physical device.
#[derive(Debug, Clone, Copy, PartialEq, Eq)]
pub struct QueueFamilyInfo {
    /// The family's identifier within its physical device.
    pub id: u32,
    /// Whether queues of the family execute graphics operations.
    pub supports_graphics: bool,
}

/// Tells whether any of `families` supports graphics. Nothing else a family
/// can do counts.
pub fn has_graphics_family(families: &Vec<QueueFamilyInfo>) -> (found: bool)
    ensures
        found == exists|j: int| 0 <= j < families@.len() && families@[j].supports_graphics,
{
    let mut index: usize = 0;
    while index < families.len()
        invariant
            index <= families@.len(),
            forall|j: int| 0 <= j < index ==> !families@[j].supports_graphics,
        decreases families@.len() - index,
    {
        if families[index].supports_graphics {
            return true;
        }
        index = index + 1;
    }
    false
}

/// Finds the queue family the work is submitted to: the first one, in the
/// order given, that supports graphics. Without such a family there is no
/// queue to submit to, so the caller has to have found that one exists.
pub fn find_graphics_family(families: &Vec<QueueFamilyInfo>) -> (index: usize)
    requires
        exists|j: int| 0 <= j < families@.len() && families@[j].supports_graphics,
    ensures
        index < families@.len(),
        families@[index as int].supports_graphics,
        forall|j: int| 0 <= j < index ==> !families@[j].supports_graphics,
{
    let mut index: usize = 0;
    while !families[index].supports_graphics
        invariant
            index < families.len(),
            forall|j: int| 0 <= j < index ==> !families@[j].supports_graphics,
            exists|j: int| index <= j < families@.len() && families@[j].supports_graphics,
        decreases families@.len() - index,
    {
        index = index + 1;
    }
    index
}

} // verus!
