//! A candidate device as the negotiation sees it, the capability report that
//! probing it gives, and its score.

use vstd::prelude::*;
use crate::extensions::{
    lemma_none_missing_iff_supports_all, missing_extensions, missing_names, names, supports_all,
};
use crate::queues::{is_first_graphics, is_first_presenting, QueueFamilies, QueueFamilyInfo};
use crate::vulkan::{device_type_is_discrete, is_discrete, supports_graphics};

verus! {

/// What a discrete GPU scores ahead of any other kind of device.
pub const DISCRETE_BONUS: u64 = 3000;

/// One physical device, described by what the driver reports of it.
#[derive(Clone, Debug, PartialEq, Eq)]
pub struct CandidateDevice {
    /// The driver's handle of the device. It is carried, never read.
    pub handle: u64,
    /// The raw device type.
    pub device_type: i32,
    /// The largest width or height of a two-dimensional image.
    pub max_image_dimension_2d: u32,
    /// The device's queue families; a family's index is its position.
    pub queue_families: Vec<QueueFamilyInfo>,
    /// The names of the extensions that the device supports.
    pub extensions: Vec<String>,
}

impl CandidateDevice {
    /// Every family has an index.
    pub open spec fn wf(&self) -> bool {
        self.queue_families@.len() <= u32::MAX
    }

    /// Some family takes graphics work.
    pub open spec fn has_graphics_family(&self) -> bool {
        exists|i: int|
            0 <= i < self.queue_families@.len() && supports_graphics(
                #[trigger] self.queue_families@[i].queue_flags,
            )
    }

    /// Some family can present.
    pub open spec fn has_presenting_family(&self) -> bool {
        exists|i: int|
            0 <= i < self.queue_families@.len() && (#[trigger] self.queue_families@[i]).present_support
    }

    /// The device meets every requirement: a graphics family, a presenting
    /// family where presentation is asked for, and all required extensions.
    pub open spec fn suitable(
        &self,
        presentation_requested: bool,
        required: Seq<Seq<char>>,
    ) -> bool {
        &&& self.has_graphics_family()
        &&& presentation_requested ==> self.has_presenting_family()
        &&& supports_all(names(self.extensions@), required)
    }
}

/// The score of a device: the bonus where it is discrete, plus its largest
/// image dimension.
pub open spec fn score_of(device: CandidateDevice) -> int {
    (if is_discrete(device.device_type) {
        DISCRETE_BONUS as int
    } else {
        0
    }) + device.max_image_dimension_2d
}

/// What probing one device found.
#[derive(Clone, Debug, PartialEq, Eq)]
pub struct CapabilityReport {
    /// The first family for graphics, and the first for presentation where
    /// presentation was asked for.
    pub families: QueueFamilies,
    /// Whether presentation was asked for.
    pub presentation_requested: bool,
    /// The required extensions that the device lacks.
    pub missing_extensions: Vec<String>,
}

impl CapabilityReport {
    /// The report allows the device to be selected: nothing is missing,
    /// graphics has a family, and so has presentation where it was asked for.
    pub open spec fn valid(&self) -> bool {
        &&& self.missing_extensions@.len() == 0
        &&& self.families.graphics is Some
        &&& self.presentation_requested ==> self.families.presentation is Some
    }

    /// The report is what probing `device` gives.
    pub open spec fn is_report_of(
        &self,
        device: CandidateDevice,
        presentation_requested: bool,
        required: Seq<Seq<char>>,
    ) -> bool {
        &&& is_first_graphics(device.queue_families@, self.families.graphics)
        &&& presentation_requested ==> is_first_presenting(
            device.queue_families@,
            self.families.presentation,
        )
        &&& !presentation_requested ==> self.families.presentation is None
        &&& self.presentation_requested == presentation_requested
        &&& names(self.missing_extensions@) == missing_names(required, names(device.extensions@))
    }

    /// Whether the report allows the device to be selected.
    pub fn is_valid(&self) -> (r: bool)
        ensures
            r == self.valid(),
    {
        if self.missing_extensions.len() != 0 {
            false
        } else if self.presentation_requested {
            self.families.is_valid()
        } else {
            self.families.graphics.is_some()
        }
    }
}

/// A report of a device is valid exactly when the device is suitable.
pub proof fn lemma_valid_report_iff_suitable(
    report: CapabilityReport,
    device: CandidateDevice,
    presentation_requested: bool,
    required: Seq<Seq<char>>,
)
    requires
        report.is_report_of(device, presentation_requested, required),
    ensures
        report.valid() <==> device.suitable(presentation_requested, required),
{
    lemma_none_missing_iff_supports_all(required, names(device.extensions@));
    assert(names(report.missing_extensions@).len() == report.missing_extensions@.len());
}

/// Probes one device: resolves the roles to its families and lists the
/// required extensions that it lacks.
pub fn probe(
    device: &CandidateDevice,
    presentation_requested: bool,
    required_extensions: &Vec<String>,
) -> (report: CapabilityReport)
    requires
        device.wf(),
    ensures
        report.is_report_of(*device, presentation_requested, names(required_extensions@)),
        report.valid() <==> device.suitable(presentation_requested, names(required_extensions@)),
{
    let report = CapabilityReport {
        families: QueueFamilies::new(&device.queue_families, presentation_requested),
        presentation_requested,
        missing_extensions: missing_extensions(required_extensions, &device.extensions),
    };
    proof {
        lemma_valid_report_iff_suitable(
            report,
            *device,
            presentation_requested,
            names(required_extensions@),
        );
    }
    report
}

/// Scores one device.
pub fn score(device: &CandidateDevice) -> (s: u64)
    ensures
        s == score_of(*device),
{
    let dimension: u64 = device.max_image_dimension_2d as u64;
    if device_type_is_discrete(device.device_type) {
        DISCRETE_BONUS + dimension
    } else {
        dimension
    }
}

} // verus!
