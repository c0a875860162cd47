//! The selections reporting is built on: which components match a list of
//! requested names, and which requested names match nothing. Printing
//! itself happens outside.

use vstd::prelude::*;

use crate::ng_models::{NgComponentInfo, NgComponentModel};
use crate::ng_results::NgAnalysisResults;
use crate::strutil::str_eq;

verus! {

/// Whether some string in `names` reads `name`.
pub open spec fn spec_name_listed(names: Seq<String>, name: Seq<char>) -> bool {
    exists|i: int| 0 <= i < names.len() && names[i]@ == name
}

/// The components whose names are requested, in result order.
pub open spec fn spec_filtered_components(
    comps: Seq<NgComponentInfo>,
    names: Seq<String>,
) -> Seq<NgComponentModel>
    decreases comps.len(),
{
    if comps.len() == 0 {
        Seq::empty()
    } else {
        let rest = spec_filtered_components(comps.drop_last(), names);
        if spec_name_listed(names, comps.last().base.name@) {
            rest.push(comps.last().model())
        } else {
            rest
        }
    }
}

/// The requested names no component carries, in request order.
pub open spec fn spec_missing_names(comps: Seq<NgComponentInfo>, names: Seq<String>) -> Seq<
    String,
>
    decreases names.len(),
{
    if names.len() == 0 {
        Seq::empty()
    } else {
        let rest = spec_missing_names(comps, names.drop_last());
        if !(exists|i: int| 0 <= i < comps.len() && (#[trigger] comps[i]).base.name@
            == names.last()@) {
            rest.push(names.last())
        } else {
            rest
        }
    }
}

/// Whether some string in `names` reads the same as `name`.
fn name_listed(names: &Vec<String>, name: &str) -> (r: bool)
    ensures
        r == spec_name_listed(names@, name@),
{
    let mut i: usize = 0;
    while i < names.len()
        invariant
            0 <= i <= names@.len(),
            forall|j: int| 0 <= j < i ==> names@[j]@ != name@,
        decreases names@.len() - i,
    {
        if str_eq(names[i].as_str(), name) {
            assert(names@[i as int]@ == name@);
            return true;
        }
        i += 1;
    }
    proof {
        if spec_name_listed(names@, name@) {
            let j = choose|j: int| 0 <= j < names@.len() && names@[j]@ == name@;
            assert(false);
        }
    }
    false
}

/// Computes report selections; the printing around them lives outside.
pub struct NgReporter;

impl NgReporter {
    /// The components whose names are requested.
    #[verifier::loop_isolation(false)]
    pub fn filter_components(results: &NgAnalysisResults, component_names: &Vec<String>) -> (r:
        Vec<NgComponentInfo>)
        ensures
            r@.map_values(|c: NgComponentInfo| c.model()) == spec_filtered_components(
                results.components@,
                component_names@,
            ),
    {
        let mut out: Vec<NgComponentInfo> = Vec::new();
        let mut i: usize = 0;
        proof {
            assert(results.components@.take(0) =~= Seq::<NgComponentInfo>::empty());
            assert(out@.map_values(|c: NgComponentInfo| c.model()) =~= spec_filtered_components(
                results.components@.take(0),
                component_names@,
            ));
        }
        while i < results.components.len()
            invariant
                0 <= i <= results.components@.len(),
                out@.map_values(|c: NgComponentInfo| c.model()) == spec_filtered_components(
                    results.components@.take(i as int),
                    component_names@,
                ),
            decreases results.components@.len() - i,
        {
            let c = &results.components[i];
            proof {
                assert(results.components@.take(i as int + 1).drop_last()
                    =~= results.components@.take(i as int));
                assert(results.components@.take(i as int + 1).last()
                    == results.components@[i as int]);
            }
            if name_listed(component_names, c.base.name.as_str()) {
                let ghost prev = out@;
                out.push(c.clone());
                proof {
                    assert(out@.map_values(|c2: NgComponentInfo| c2.model()) =~= prev.map_values(
                        |c2: NgComponentInfo| c2.model(),
                    ).push(results.components@[i as int].model()));
                }
            }
            i += 1;
        }
        proof {
            assert(results.components@.take(results.components@.len() as int)
                =~= results.components@);
        }
        out
    }

    /// The requested names no component carries.
    #[verifier::loop_isolation(false)]
    pub fn missing_components(results: &NgAnalysisResults, component_names: &Vec<String>) -> (r:
        Vec<String>)
        ensures
            r@ == spec_missing_names(results.components@, component_names@),
    {
        let mut out: Vec<String> = Vec::new();
        let mut i: usize = 0;
        proof {
            assert(component_names@.take(0) =~= Seq::<String>::empty());
            assert(out@ =~= spec_missing_names(results.components@, component_names@.take(0)));
        }
        while i < component_names.len()
            invariant
                0 <= i <= component_names@.len(),
                out@ == spec_missing_names(results.components@, component_names@.take(i as int)),
            decreases component_names@.len() - i,
        {
            let name = &component_names[i];
            proof {
                assert(component_names@.take(i as int + 1).drop_last() =~= component_names@.take(
                    i as int,
                ));
                assert(component_names@.take(i as int + 1).last()
                    == component_names@[i as int]);
            }
            let mut found = false;
            let mut j: usize = 0;
            while j < results.components.len()
                invariant
                    0 <= j <= results.components@.len(),
                    found ==> exists|t: int|
                        0 <= t < results.components@.len() && (#[trigger] results.components@[t]).base.name@
                            == name@,
                    !found ==> forall|t: int|
                        0 <= t < j ==> (#[trigger] results.components@[t]).base.name@ != name@,
                decreases results.components@.len() - j, (if found { 0int } else { 1int }),
            {
                if str_eq(results.components[j].base.name.as_str(), name.as_str()) {
                    found = true;
                    proof {
                        assert(results.components@[j as int].base.name@ == name@);
                    }
                }
                j += 1;
            }
            if !found {
                out.push(name.clone());
            }
            i += 1;
        }
        proof {
            assert(component_names@.take(component_names@.len() as int) =~= component_names@);
        }
        out
    }
}

} // verus!
