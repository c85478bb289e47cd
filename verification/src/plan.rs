//! The queues to ask for when the logical device is created: one request
//! for each family that some role resolved to.

use vstd::prelude::*;
use crate::device::CapabilityReport;

verus! {

/// The highest queue priority. Priorities are counted in thousandths.
pub const FULL_PRIORITY: u16 = 1000;

/// A request for queues of one family.
#[derive(Clone, Debug, PartialEq, Eq)]
pub struct QueueRequest {
    pub family_index: u32,
    pub queue_count: u32,
    /// The priority of each queue, in thousandths, from 0 to `FULL_PRIORITY`.
    pub priorities: Vec<u16>,
}

impl QueueRequest {
    /// There is one priority for each queue, and none is above the highest.
    pub open spec fn wf(&self) -> bool {
        &&& self.priorities@.len() == self.queue_count
        &&& forall|k: int|
            0 <= k < self.priorities@.len() ==> #[trigger] self.priorities@[k] <= FULL_PRIORITY
    }

    /// The request is for one queue of `family`, at the highest priority.
    pub open spec fn is_single(&self, family: u32) -> bool {
        &&& self.family_index == family
        &&& self.queue_count == 1
        &&& self.priorities@ == seq![FULL_PRIORITY]
    }

    /// A request for one queue of `family`, at the highest priority.
    pub fn single(family: u32) -> (request: Self)
        ensures
            request.is_single(family),
            request.wf(),
    {
        let mut priorities: Vec<u16> = Vec::new();
        priorities.push(FULL_PRIORITY);
        QueueRequest { family_index: family, queue_count: 1, priorities }
    }
}

impl CapabilityReport {
    /// The family that presentation uses: the one it resolved to, where
    /// presentation was asked for.
    pub open spec fn presentation_family(&self) -> Option<u32> {
        if self.presentation_requested {
            self.families.presentation
        } else {
            None
        }
    }

    /// Some role uses `family`.
    pub open spec fn uses_family(&self, family: u32) -> bool {
        self.families.graphics == Some(family) || self.presentation_family() == Some(family)
    }

    /// How many families the roles use between them.
    pub open spec fn distinct_families(&self) -> nat {
        let shared = self.families.graphics == self.presentation_family();
        (if self.families.graphics is Some { 1nat } else { 0nat })
            + (if self.presentation_family() is Some && !shared { 1nat } else { 0nat })
    }
}

/// The family indices ascend, so none occurs twice.
pub open spec fn is_ascending(plan: Seq<QueueRequest>) -> bool {
    forall|i: int, j: int|
        #![trigger plan[i], plan[j]]
        0 <= i < j < plan.len() ==> plan[i].family_index < plan[j].family_index
}

/// In an ascending plan no two requests are for the same family.
pub proof fn lemma_ascending_has_no_duplicates(plan: Seq<QueueRequest>, i: int, j: int)
    requires
        is_ascending(plan),
        0 <= i < plan.len(),
        0 <= j < plan.len(),
        i != j,
    ensures
        plan[i].family_index != plan[j].family_index,
{
    if i < j {
        assert(plan[i].family_index < plan[j].family_index);
    } else {
        assert(plan[j].family_index < plan[i].family_index);
    }
}

/// The plan holds a request for `family`.
pub open spec fn requests_family(plan: Seq<QueueRequest>, family: u32) -> bool {
    exists|i: int| 0 <= i < plan.len() && (#[trigger] plan[i]).family_index == family
}

/// `after` is `before` with one request more, at position `at`: a request
/// for one queue of `family`.
pub open spec fn is_insertion(
    before: Seq<QueueRequest>,
    after: Seq<QueueRequest>,
    at: int,
    family: u32,
) -> bool {
    &&& 0 <= at <= before.len()
    &&& after.len() == before.len() + 1
    &&& after[at].is_single(family)
    &&& forall|i: int| 0 <= i < at ==> #[trigger] after[i] == before[i]
    &&& forall|i: int| at <= i < before.len() ==> after[i + 1] == #[trigger] before[i]
}

/// The plan is the one for the report: ascending by family, with exactly
/// one single-queue request for each family that a role uses.
pub open spec fn is_plan_for(plan: Seq<QueueRequest>, report: CapabilityReport) -> bool {
    &&& is_ascending(plan)
    &&& forall|i: int|
        0 <= i < plan.len() ==> {
            &&& (#[trigger] plan[i]).is_single(plan[i].family_index)
            &&& report.uses_family(plan[i].family_index)
        }
    &&& forall|family: u32| #[trigger] report.uses_family(family) ==> requests_family(plan, family)
}

/// A plan for a report has as many requests as the roles use families.
pub proof fn lemma_plan_length(plan: Seq<QueueRequest>, report: CapabilityReport)
    requires
        is_plan_for(plan, report),
    ensures
        plan.len() == report.distinct_families(),
{
    let g = report.families.graphics;
    let p = report.presentation_family();
    if plan.len() >= 3 {
        assert(report.uses_family(plan[0].family_index));
        assert(report.uses_family(plan[1].family_index));
        assert(report.uses_family(plan[2].family_index));
    }
    if plan.len() >= 2 {
        assert(report.uses_family(plan[0].family_index));
        assert(report.uses_family(plan[1].family_index));
        assert(plan[0].family_index < plan[1].family_index);
    }
    if plan.len() >= 1 {
        assert(report.uses_family(plan[0].family_index));
    }
    if g is Some {
        assert(report.uses_family(g->0));
        assert(requests_family(plan, g->0));
    }
    if p is Some {
        assert(report.uses_family(p->0));
        assert(requests_family(plan, p->0));
    }
}

/// Adds a request for one queue of `family`, unless the plan holds a
/// request for that family already. The plan stays ascending.
pub fn request_family(plan: &mut Vec<QueueRequest>, family: u32)
    requires
        is_ascending(old(plan)@),
    ensures
        is_ascending(final(plan)@),
        requests_family(old(plan)@, family) ==> final(plan)@ == old(plan)@,
        !requests_family(old(plan)@, family) ==> exists|at: int|
            is_insertion(old(plan)@, final(plan)@, at, family),
{
    let mut at: usize = 0;
    while at < plan.len() && plan[at].family_index < family
        invariant
            at <= plan@.len(),
            plan@ == old(plan)@,
            forall|i: int| 0 <= i < at ==> (#[trigger] plan@[i]).family_index < family,
        decreases plan@.len() - at,
    {
        at += 1;
    }
    if at < plan.len() && plan[at].family_index == family {
        return;
    }
    assert(!requests_family(plan@, family)) by {
        assert forall|i: int| 0 <= i < plan@.len() implies (#[trigger] plan@[i]).family_index != family by {
            if i > at {
                assert(plan@[at as int].family_index < plan@[i].family_index);
            }
        }
    }
    plan.insert(at, QueueRequest::single(family));
    assert(is_insertion(old(plan)@, plan@, at as int, family));
    assert(is_ascending(plan@)) by {
        assert forall|i: int, j: int|
            #![trigger plan@[i], plan@[j]]
            0 <= i < j < plan@.len() implies plan@[i].family_index < plan@[j].family_index by {
            let before = old(plan)@;
            if j < at {
                assert(before[i].family_index < before[j].family_index);
            } else if j == at {
                assert(before[i].family_index < family);
            } else if i < at {
                assert(before[i].family_index < before[j - 1].family_index);
            } else if i == at {
                assert(before[at as int].family_index <= before[j - 1].family_index);
            } else {
                assert(before[i - 1].family_index < before[j - 1].family_index);
            }
        }
    }
}

/// Plans the queues for a device whose report is valid: one queue, at the
/// highest priority, of each family that a role resolved to, in ascending
/// order of the families. A family that serves two roles is asked for once.
pub fn build_plan(report: &CapabilityReport) -> (plan: Vec<QueueRequest>)
    requires
        report.valid(),
    ensures
        is_plan_for(plan@, *report),
        plan@.len() == report.distinct_families(),
        forall|i: int| 0 <= i < plan@.len() ==> (#[trigger] plan@[i]).wf(),
{
    let mut plan: Vec<QueueRequest> = Vec::new();
    let graphics = report.families.graphics.unwrap();
    let ghost empty = plan@;
    request_family(&mut plan, graphics);
    let ghost first = plan@;
    proof {
        let at = choose|at: int| is_insertion(empty, first, at, graphics);
        assert(first[at].is_single(graphics));
    }
    if report.presentation_requested {
        let presentation = report.families.presentation.unwrap();
        request_family(&mut plan, presentation);
        proof {
            if !requests_family(first, presentation) {
                let at = choose|at: int| is_insertion(first, plan@, at, presentation);
                assert(plan@[at].is_single(presentation));
                if at == 0 {
                    assert(plan@[1] == first[0]);
                } else {
                    assert(plan@[0] == first[0]);
                }
            }
        }
    }
    proof {
        lemma_plan_length(plan@, *report);
    }
    plan
}

} // verus!
