//! Queue families of one device, and the family that each role resolves to.

use vstd::prelude::*;
use crate::vulkan::{flags_support_graphics, supports_graphics};

verus! {

/// What is known of one queue family of a device. Its index is its position
/// in the device's list of families.
#[derive(Clone, Copy, Debug, PartialEq, Eq)]
pub struct QueueFamilyInfo {
    /// The family's raw queue flags.
    pub queue_flags: u32,
    /// Whether the family can present to the target that was asked about.
    pub present_support: bool,
}

/// The family index that each role resolved to, if any.
#[derive(Clone, Copy, Debug, PartialEq, Eq)]
pub struct QueueFamilies {
    pub graphics: Option<u32>,
    pub presentation: Option<u32>,
}

/// `index` is the first family that takes graphics work, or `None` where
/// no family does.
pub open spec fn is_first_graphics(families: Seq<QueueFamilyInfo>, index: Option<u32>) -> bool {
    match index {
        Some(i) => {
            &&& i < families.len()
            &&& supports_graphics(families[i as int].queue_flags)
            &&& forall|j: int| 0 <= j < i ==> !supports_graphics(#[trigger] families[j].queue_flags)
        },
        None => forall|j: int|
            0 <= j < families.len() ==> !supports_graphics(#[trigger] families[j].queue_flags),
    }
}

/// `index` is the first family that can present, or `None` where no family
/// can.
pub open spec fn is_first_presenting(families: Seq<QueueFamilyInfo>, index: Option<u32>) -> bool {
    match index {
        Some(i) => {
            &&& i < families.len()
            &&& families[i as int].present_support
            &&& forall|j: int| 0 <= j < i ==> !(#[trigger] families[j]).present_support
        },
        None => forall|j: int| 0 <= j < families.len() ==> !(#[trigger] families[j]).present_support,
    }
}

impl QueueFamilies {
    /// Resolves the roles against a device's families, each role to the
    /// first family that can serve it. Presentation is resolved only where
    /// it was asked for.
    pub fn new(families: &Vec<QueueFamilyInfo>, presentation_requested: bool) -> (r: Self)
        requires
            families@.len() <= u32::MAX,
        ensures
            is_first_graphics(families@, r.graphics),
            presentation_requested ==> is_first_presenting(families@, r.presentation),
            !presentation_requested ==> r.presentation is None,
    {
        let mut found = Self::default();
        let mut i: usize = 0;
        while i < families.len()
            invariant
                i <= families@.len() <= u32::MAX,
                is_first_graphics(families@.take(i as int), found.graphics),
                presentation_requested ==> is_first_presenting(
                    families@.take(i as int),
                    found.presentation,
                ),
                !presentation_requested ==> found.presentation is None,
            decreases families@.len() - i,
        {
            let family = &families[i];
            if found.graphics.is_none() && flags_support_graphics(family.queue_flags) {
                found.graphics = Some(i as u32);
            }
            if presentation_requested && found.presentation.is_none() && family.present_support {
                found.presentation = Some(i as u32);
            }
            i += 1;
        }
        assert(families@.take(i as int) =~= families@);
        found
    }

    /// Whether both roles have a family.
    pub fn is_valid(&self) -> (r: bool)
        ensures
            r == (self.graphics is Some && self.presentation is Some),
    {
        self.graphics.is_some() && self.presentation.is_some()
    }
}

impl Default for QueueFamilies {
    /// No role resolved.
    fn default() -> (r: Self)
        ensures
            r.graphics is None,
            r.presentation is None,
    {
        Self { graphics: None, presentation: None }
    }
}

} // verus!
