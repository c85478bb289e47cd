//! Extension names: which of the required ones a device lacks.

use vstd::prelude::*;
use crate::vulkan::{swapchain_extension_name, swapchain_name};

verus! {

/// The names that a list of strings holds, in order.
pub open spec fn names(list: Seq<String>) -> Seq<Seq<char>> {
    list.map_values(|s: String| s@)
}

/// The test that a name is not among `supported`.
pub open spec fn is_lacking(supported: Seq<Seq<char>>) -> spec_fn(Seq<char>) -> bool {
    |name: Seq<char>| !supported.contains(name)
}

/// The required names that are not among the supported ones, in the order
/// in which they are required.
pub open spec fn missing_names(
    required: Seq<Seq<char>>,
    supported: Seq<Seq<char>>,
) -> Seq<Seq<char>> {
    required.filter(is_lacking(supported))
}

/// Every required name is among the supported ones.
pub open spec fn supports_all(supported: Seq<Seq<char>>, required: Seq<Seq<char>>) -> bool {
    forall|k: int| 0 <= k < required.len() ==> supported.contains(#[trigger] required[k])
}

/// Nothing is missing exactly when every required name is supported.
pub proof fn lemma_none_missing_iff_supports_all(
    required: Seq<Seq<char>>,
    supported: Seq<Seq<char>>,
)
    ensures
        missing_names(required, supported).len() == 0 <==> supports_all(supported, required),
{
    let lacking = is_lacking(supported);
    let missing = required.filter(lacking);
    if missing.len() == 0 {
        assert forall|k: int| 0 <= k < required.len() implies supported.contains(
            #[trigger] required[k],
        ) by {
            if lacking(required[k]) {
                required.lemma_filter_contains(lacking, k);
                assert(missing.contains(required[k]));
            }
        }
    } else {
        required.lemma_filter_pred(lacking, 0);
        required.lemma_filter_contains_rev(lacking, missing[0]);
        assert(missing.contains(missing[0]));
        assert(required.contains(missing[0]));
        assert(!supported.contains(missing[0]));
    }
}

/// As sets, the missing names are the required ones less the supported ones.
pub proof fn lemma_missing_is_set_difference(required: Seq<Seq<char>>, supported: Seq<Seq<char>>)
    ensures
        missing_names(required, supported).to_set() == required.to_set().difference(
            supported.to_set(),
        ),
{
    let lacking = is_lacking(supported);
    let missing = required.filter(lacking);
    assert forall|name: Seq<char>| missing.contains(name) <==> required.contains(name)
        && !supported.contains(name) by {
        if missing.contains(name) {
            let k = choose|k: int| 0 <= k < missing.len() && missing[k] == name;
            required.lemma_filter_pred(lacking, k);
            required.lemma_filter_contains_rev(lacking, name);
        }
        if required.contains(name) && !supported.contains(name) {
            let k = choose|k: int| 0 <= k < required.len() && required[k] == name;
            required.lemma_filter_contains(lacking, k);
        }
    }
    assert(missing.to_set() =~= required.to_set().difference(supported.to_set()));
}

/// Whether `name` is among `supported`.
pub fn is_supported(name: &String, supported: &Vec<String>) -> (r: bool)
    ensures
        r == names(supported@).contains(name@),
{
    let mut i: usize = 0;
    while i < supported.len()
        invariant
            i <= supported@.len(),
            forall|j: int| 0 <= j < i ==> names(supported@)[j] != name@,
        decreases supported@.len() - i,
    {
        if supported[i] == *name {
            assert(names(supported@)[i as int] == name@);
            return true;
        }
        i += 1;
    }
    false
}

/// The required extensions that the device does not support.
pub fn missing_extensions(required: &Vec<String>, supported: &Vec<String>) -> (missing: Vec<String>)
    ensures
        names(missing@) == missing_names(names(required@), names(supported@)),
{
    let mut missing: Vec<String> = Vec::new();
    let mut i: usize = 0;
    proof {
        reveal(Seq::filter);
        assert(names(required@).take(0) =~= Seq::<Seq<char>>::empty());
        assert(names(missing@) =~= Seq::<Seq<char>>::empty());
    }
    while i < required.len()
        invariant
            i <= required@.len(),
            names(missing@) == missing_names(names(required@).take(i as int), names(supported@)),
        decreases required@.len() - i,
    {
        let ghost before = names(missing@);
        let ghost seen = names(required@).take(i as int);
        let name = &required[i];
        proof {
            assert(names(required@).take(i + 1) =~= seen.push(name@));
            seen.lemma_filter_push(name@, is_lacking(names(supported@)));
        }
        if !is_supported(name, supported) {
            missing.push(name.clone());
            assert(names(missing@) =~= before.push(name@));
        }
        i += 1;
    }
    assert(names(required@).take(i as int) =~= names(required@));
    missing
}

/// The device extensions that rendering to a window needs: swapchains.
pub fn required_device_extensions() -> (required: Vec<String>)
    ensures
        names(required@) == seq![swapchain_name()],
{
    let mut required: Vec<String> = Vec::new();
    required.push(swapchain_extension_name());
    assert(names(required@) =~= seq![swapchain_name()]);
    required
}

} // verus!
