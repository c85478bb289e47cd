//! Choosing one device among the candidates.

use vstd::prelude::*;
use crate::device::{probe, score, score_of, CandidateDevice};
use crate::extensions::names;

verus! {

/// No candidate meets the requirements.
#[derive(Clone, Copy, Debug, PartialEq, Eq)]
pub struct NoSuitableDeviceError;

impl NoSuitableDeviceError {
    /// The message to show when start-up is given up for want of a device.
    pub fn message(&self) -> (text: &'static str)
        ensures
            text@ == "No suitable GPUs for this application found"@,
    {
        "No suitable GPUs for this application found"
    }
}

/// Some candidate is suitable.
pub open spec fn any_suitable(
    candidates: Seq<CandidateDevice>,
    presentation_requested: bool,
    required: Seq<Seq<char>>,
) -> bool {
    exists|i: int|
        0 <= i < candidates.len() && (#[trigger] candidates[i]).suitable(
            presentation_requested,
            required,
        )
}

/// The candidate at `best` is the one to select: it is suitable, no
/// suitable candidate scores higher, and every suitable candidate before it
/// scores lower.
pub open spec fn is_selection(
    candidates: Seq<CandidateDevice>,
    presentation_requested: bool,
    required: Seq<Seq<char>>,
    best: int,
) -> bool {
    &&& 0 <= best < candidates.len()
    &&& candidates[best].suitable(presentation_requested, required)
    &&& forall|j: int|
        0 <= j < candidates.len() && (#[trigger] candidates[j]).suitable(
            presentation_requested,
            required,
        ) ==> score_of(candidates[j]) <= score_of(candidates[best])
    &&& forall|j: int|
        0 <= j < best && (#[trigger] candidates[j]).suitable(presentation_requested, required)
            ==> score_of(candidates[j]) < score_of(candidates[best])
}

/// At most one position is the selection.
pub proof fn lemma_selection_is_unique(
    candidates: Seq<CandidateDevice>,
    presentation_requested: bool,
    required: Seq<Seq<char>>,
    a: int,
    b: int,
)
    requires
        is_selection(candidates, presentation_requested, required, a),
        is_selection(candidates, presentation_requested, required, b),
    ensures
        a == b,
{
}

/// Of the suitable candidates that score the same as the selected one, the
/// selected one comes first.
pub proof fn lemma_tie_goes_to_earlier(
    candidates: Seq<CandidateDevice>,
    presentation_requested: bool,
    required: Seq<Seq<char>>,
    selected: int,
    other: int,
)
    requires
        is_selection(candidates, presentation_requested, required, selected),
        0 <= other < candidates.len(),
        candidates[other].suitable(presentation_requested, required),
        score_of(candidates[other]) == score_of(candidates[selected]),
    ensures
        selected <= other,
{
}

/// Selects the suitable candidate with the highest score, the earliest of
/// them where several share it. Fails where no candidate is suitable.
pub fn select<'a>(
    candidates: &'a Vec<CandidateDevice>,
    presentation_requested: bool,
    required_extensions: &Vec<String>,
) -> (r: Result<&'a CandidateDevice, NoSuitableDeviceError>)
    requires
        forall|i: int| 0 <= i < candidates@.len() ==> (#[trigger] candidates@[i]).wf(),
    ensures
        any_suitable(candidates@, presentation_requested, names(required_extensions@)) ==> r is Ok,
        !any_suitable(candidates@, presentation_requested, names(required_extensions@)) ==> r
            == Err::<&CandidateDevice, NoSuitableDeviceError>(NoSuitableDeviceError),
        r matches Ok(device) ==> device.suitable(
            presentation_requested,
            names(required_extensions@),
        ),
        r matches Ok(device) ==> exists|best: int|
            is_selection(
                candidates@,
                presentation_requested,
                names(required_extensions@),
                best,
            ) && *device == candidates@[best],
{
    let ghost required = names(required_extensions@);
    let mut best: Option<usize> = None;
    let mut best_score: u64 = 0;
    let mut i: usize = 0;
    while i < candidates.len()
        invariant
            i <= candidates@.len(),
            required == names(required_extensions@),
            forall|k: int| 0 <= k < candidates@.len() ==> (#[trigger] candidates@[k]).wf(),
            match best {
                Some(b) => {
                    &&& b < i
                    &&& is_selection(
                        candidates@.take(i as int),
                        presentation_requested,
                        required,
                        b as int,
                    )
                    &&& best_score == score_of(candidates@[b as int])
                },
                None => !any_suitable(candidates@.take(i as int), presentation_requested, required),
            },
        decreases candidates@.len() - i,
    {
        let candidate = &candidates[i];
        let report = probe(candidate, presentation_requested, required_extensions);
        if report.is_valid() {
            let s = score(candidate);
            let better = match best {
                None => true,
                Some(_) => s > best_score,
            };
            if better {
                best = Some(i);
                best_score = s;
            }
        }
        i += 1;
    }
    assert(candidates@.take(i as int) =~= candidates@);
    match best {
        Some(b) => Ok(&candidates[b]),
        None => Err(NoSuitableDeviceError),
    }
}

} // verus!
