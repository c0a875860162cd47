//! Ties the dependency analysis together: build the lookup maps from a
//! result, then analyze and attach references.

use vstd::prelude::*;

use crate::ng_dependency::{with_refs_base, NgDependencyAnalyzer};
use crate::ng_maps::{
    comp_model_view, comp_selector_fold, dir_model_view, dir_selector_fold, elem_base_view,
    pipe_model_view, pipe_name_fold, spec_path_map, NgPathMap, NgSelectorMaps,
};
use crate::ng_results::NgAnalysisResults;

verus! {

/// Runs the dependency analysis over one result set.
pub struct NgAnalysisProcessor;

impl NgAnalysisProcessor {
    pub fn new() -> (r: Self) {
        NgAnalysisProcessor
    }

    /// Build the selector maps and the path map from a result.
    pub fn build_maps(results: &NgAnalysisResults) -> (r: (NgSelectorMaps, NgPathMap))
        ensures
            r.0.wf(),
            r.1.wf(),
            comp_model_view(r.0.component_selector_map.as_map()) == comp_selector_fold(
                results.components@,
            ),
            dir_model_view(r.0.directive_selector_map.as_map()) == dir_selector_fold(
                results.directives@,
            ),
            pipe_model_view(r.0.pipe_selector_map.as_map()) == pipe_name_fold(results.pipes@),
            elem_base_view(r.1.path_map.as_map()) == spec_path_map(results),
    {
        let selector_maps = NgSelectorMaps::build_from_results(results);
        let path_map = NgPathMap::build_from_results(results);
        (selector_maps, path_map)
    }

    /// Build the maps from the current result and attach references from
    /// the analysis they drive.
    pub fn analyze_dependencies(&self, results: &mut NgAnalysisResults)
        ensures
            final(results).components@.len() == old(results).components@.len(),
            final(results).directives@.len() == old(results).directives@.len(),
            final(results).pipes@.len() == old(results).pipes@.len(),
            final(results).modules@.len() == old(results).modules@.len(),
            final(results).services@.len() == old(results).services@.len(),
            final(results).others@.len() == old(results).others@.len(),
            final(results).test_specs@.len() == old(results).test_specs@.len(),
            exists|analyzer: NgDependencyAnalyzer|
                {
                    &&& analyzer.comp_map() == comp_selector_fold(old(results).components@)
                    &&& analyzer.dir_map() == dir_selector_fold(old(results).directives@)
                    &&& analyzer.pipe_map() == pipe_name_fold(old(results).pipes@)
                    &&& analyzer.path_map() == spec_path_map(old(results))
                    &&& ({
                        let sv = analyzer.spec_usage_stats(old(results));
                        forall|i: int|
                            0 <= i < old(results).components@.len()
                                ==> (#[trigger] final(results).components@[i]).model().base
                                == with_refs_base(old(results).components@[i].model().base, sv)
                    })
                },
    {
        let (selector_maps, path_map) = Self::build_maps(results);
        let analyzer = NgDependencyAnalyzer::new(selector_maps, path_map);
        let ghost a = analyzer;
        analyzer.analyze_dependencies(results);
        proof {
            assert(a.comp_map() == comp_selector_fold(old(results).components@));
        }
    }
}

} // verus!
