//! Around the creation of the logical device: what to ask the driver for,
//! and, once it has answered, which queue serves each role.

use vstd::prelude::*;
use crate::device::{CandidateDevice, CapabilityReport};
use crate::plan::{is_plan_for, requests_family, QueueRequest};

verus! {

/// What a queue is used for.
#[derive(Clone, Copy, Debug, PartialEq, Eq)]
pub enum Role {
    Graphics,
    Presentation,
}

/// The queue that serves a role: the one at `queue_index` within the family
/// at `family_index`.
#[derive(Clone, Copy, Debug, PartialEq, Eq)]
pub struct RoleQueue {
    pub role: Role,
    pub family_index: u32,
    pub queue_index: u32,
}

/// What the creation of a logical device is asked with.
#[derive(Clone, Debug, PartialEq, Eq)]
pub struct DeviceRequest {
    /// The handle of the physical device.
    pub physical_device: u64,
    /// The queues to create.
    pub queues: Vec<QueueRequest>,
    /// The names of the extensions to enable.
    pub extensions: Vec<String>,
}

/// A logical device, and the queue to use for each role.
#[derive(Clone, Debug, PartialEq, Eq)]
pub struct ProvisionedDevice {
    /// The handle of the logical device.
    pub handle: u64,
    /// One queue for each role that was asked for, graphics first.
    pub queues: Vec<RoleQueue>,
}

/// The driver refused to create the logical device.
#[derive(Clone, Copy, Debug, PartialEq, Eq)]
pub struct DeviceCreationError {
    /// The driver's result code.
    pub code: i32,
}

impl DeviceCreationError {
    /// The message to show when start-up is given up for this.
    pub fn message(&self) -> (text: &'static str)
        ensures
            text@ == "Failed to create vulkan device"@,
    {
        "Failed to create vulkan device"
    }
}

/// The queue of each role that the report asks for: the first queue of the
/// family that the role resolved to, graphics first.
pub open spec fn role_queues(report: CapabilityReport) -> Seq<RoleQueue> {
    let graphics = RoleQueue {
        role: Role::Graphics,
        family_index: report.families.graphics->0,
        queue_index: 0,
    };
    match report.presentation_family() {
        Some(family) => seq![
            graphics,
            RoleQueue { role: Role::Presentation, family_index: family, queue_index: 0 },
        ],
        None => seq![graphics],
    }
}

/// The plan asks for the queue: it holds a request for the queue's family,
/// with more queues than the queue's index.
pub open spec fn provides(plan: Seq<QueueRequest>, queue: RoleQueue) -> bool {
    exists|i: int|
        0 <= i < plan.len() && (#[trigger] plan[i]).family_index == queue.family_index
            && queue.queue_index < plan[i].queue_count
}

/// Two roles that resolved to one family are served by one queue.
pub proof fn lemma_shared_family_shares_queue(report: CapabilityReport, a: int, b: int)
    requires
        0 <= a < role_queues(report).len(),
        0 <= b < role_queues(report).len(),
        role_queues(report)[a].family_index == role_queues(report)[b].family_index,
    ensures
        role_queues(report)[a].queue_index == role_queues(report)[b].queue_index,
{
}

/// What to ask the driver with: the whole plan, and every required
/// extension.
pub fn request_device(
    device: &CandidateDevice,
    plan: Vec<QueueRequest>,
    required_extensions: Vec<String>,
) -> (request: DeviceRequest)
    ensures
        request.physical_device == device.handle,
        request.queues == plan,
        request.extensions == required_extensions,
{
    DeviceRequest {
        physical_device: device.handle,
        queues: plan,
        extensions: required_extensions,
    }
}

/// The position of the plan's request for `family`.
pub fn find_request(plan: &Vec<QueueRequest>, family: u32) -> (found: Option<usize>)
    ensures
        match found {
            Some(i) => {
                &&& i < plan@.len()
                &&& plan@[i as int].family_index == family
                &&& forall|j: int| 0 <= j < i ==> (#[trigger] plan@[j]).family_index != family
            },
            None => !requests_family(plan@, family),
        },
{
    let mut i: usize = 0;
    while i < plan.len()
        invariant
            i <= plan@.len(),
            forall|j: int| 0 <= j < i ==> (#[trigger] plan@[j]).family_index != family,
        decreases plan@.len() - i,
    {
        if plan[i].family_index == family {
            return Some(i);
        }
        i += 1;
    }
    None
}

/// The first queue of the plan's request for the family of a role.
fn queue_for(plan: &Vec<QueueRequest>, role: Role, family: u32) -> (queue: RoleQueue)
    requires
        requests_family(plan@, family),
        forall|i: int| 0 <= i < plan@.len() ==> (#[trigger] plan@[i]).queue_count >= 1,
    ensures
        queue == (RoleQueue { role, family_index: family, queue_index: 0 }),
        provides(plan@, queue),
{
    let at = find_request(plan, family).unwrap();
    RoleQueue { role, family_index: plan[at].family_index, queue_index: 0 }
}

/// Concludes the creation of the logical device. Where the driver refused,
/// this fails with its code. Where it created the device, each role that the
/// report asks for gets the first queue of its family, which the plan
/// provides.
pub fn provision(
    report: &CapabilityReport,
    plan: &Vec<QueueRequest>,
    created: Result<u64, i32>,
) -> (r: Result<ProvisionedDevice, DeviceCreationError>)
    requires
        report.valid(),
        is_plan_for(plan@, *report),
    ensures
        match created {
            Ok(handle) => {
                &&& r matches Ok(device)
                &&& device.handle == handle
                &&& device.queues@ == role_queues(*report)
                &&& forall|k: int|
                    0 <= k < device.queues@.len() ==> provides(plan@, #[trigger] device.queues@[k])
            },
            Err(code) => r == Err::<ProvisionedDevice, DeviceCreationError>(
                DeviceCreationError { code },
            ),
        },
{
    match created {
        Err(code) => Err(DeviceCreationError { code }),
        Ok(handle) => {
            let mut queues: Vec<RoleQueue> = Vec::new();
            let graphics = report.families.graphics.unwrap();
            assert(report.uses_family(graphics));
            queues.push(queue_for(plan, Role::Graphics, graphics));
            if report.presentation_requested {
                let presentation = report.families.presentation.unwrap();
                assert(report.uses_family(presentation));
                queues.push(queue_for(plan, Role::Presentation, presentation));
            }
            assert(queues@ =~= role_queues(*report));
            Ok(ProvisionedDevice { handle, queues })
        },
    }
}

} // verus!
