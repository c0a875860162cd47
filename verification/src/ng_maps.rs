//! Lookup maps over analysis results: elements by selector (or pipe name)
//! and by workspace-relative path.

use vstd::prelude::*;

use crate::ng_models::{
    NgBaseModel, NgComponentInfo, NgComponentModel, NgDirectiveInfo, NgDirectiveModel, NgElement,
    NgPipeInfo, NgPipeModel,
};
use crate::ng_results::NgAnalysisResults;
use crate::strmap::StrMap;

verus! {

pub open spec fn comp_model_view(m: Map<Seq<char>, NgComponentInfo>) -> Map<
    Seq<char>,
    NgComponentModel,
> {
    m.map_values(|c: NgComponentInfo| c.model())
}

pub open spec fn dir_model_view(m: Map<Seq<char>, NgDirectiveInfo>) -> Map<
    Seq<char>,
    NgDirectiveModel,
> {
    m.map_values(|d: NgDirectiveInfo| d.model())
}

pub open spec fn pipe_model_view(m: Map<Seq<char>, NgPipeInfo>) -> Map<Seq<char>, NgPipeModel> {
    m.map_values(|p: NgPipeInfo| p.model())
}

pub open spec fn elem_base_view(m: Map<Seq<char>, NgElement>) -> Map<Seq<char>, NgBaseModel> {
    m.map_values(|e: NgElement| e.get_base_spec().model())
}

/// Components keyed by selector, in order; a later component with the
/// same selector wins.
pub open spec fn comp_selector_fold(comps: Seq<NgComponentInfo>) -> Map<
    Seq<char>,
    NgComponentModel,
>
    decreases comps.len(),
{
    if comps.len() == 0 {
        Map::empty()
    } else {
        comp_selector_fold(comps.drop_last()).insert(
            comps.last().selector@,
            comps.last().model(),
        )
    }
}

pub open spec fn dir_selector_fold(dirs: Seq<NgDirectiveInfo>) -> Map<Seq<char>, NgDirectiveModel>
    decreases dirs.len(),
{
    if dirs.len() == 0 {
        Map::empty()
    } else {
        dir_selector_fold(dirs.drop_last()).insert(dirs.last().selector@, dirs.last().model())
    }
}

pub open spec fn pipe_name_fold(pipes: Seq<NgPipeInfo>) -> Map<Seq<char>, NgPipeModel>
    decreases pipes.len(),
{
    if pipes.len() == 0 {
        Map::empty()
    } else {
        pipe_name_fold(pipes.drop_last()).insert(pipes.last().name@, pipes.last().model())
    }
}

/// Base records keyed by relative path, folded over one element list.
pub open spec fn path_fold(m0: Map<Seq<char>, NgBaseModel>, bases: Seq<NgBaseModel>) -> Map<
    Seq<char>,
    NgBaseModel,
>
    decreases bases.len(),
{
    if bases.len() == 0 {
        m0
    } else {
        path_fold(m0, bases.drop_last()).insert(
            bases.last().relative_path@,
            bases.last(),
        )
    }
}

/// Elements keyed by their selectors (components and directives) or their
/// pipe name.
pub struct NgSelectorMaps {
    pub component_selector_map: StrMap<NgComponentInfo>,
    pub directive_selector_map: StrMap<NgDirectiveInfo>,
    pub pipe_selector_map: StrMap<NgPipeInfo>,
}

impl NgSelectorMaps {
    pub open spec fn wf(&self) -> bool {
        &&& self.component_selector_map.wf()
        &&& self.directive_selector_map.wf()
        &&& self.pipe_selector_map.wf()
    }

    /// Build the three selector maps from a result's element lists.
    pub fn build_from_results(results: &NgAnalysisResults) -> (r: Self)
        ensures
            r.wf(),
            comp_model_view(r.component_selector_map.as_map()) == comp_selector_fold(
                results.components@,
            ),
            dir_model_view(r.directive_selector_map.as_map()) == dir_selector_fold(
                results.directives@,
            ),
            pipe_model_view(r.pipe_selector_map.as_map()) == pipe_name_fold(results.pipes@),
    {
        let mut component_selector_map: StrMap<NgComponentInfo> = StrMap::new();
        let mut i: usize = 0;
        proof {
            assert(comp_model_view(component_selector_map.as_map()) =~= comp_selector_fold(
                results.components@.take(0),
            ));
        }
        while i < results.components.len()
            invariant
                0 <= i <= results.components@.len(),
                component_selector_map.wf(),
                comp_model_view(component_selector_map.as_map()) == comp_selector_fold(
                    results.components@.take(i as int),
                ),
            decreases results.components@.len() - i,
        {
            let comp = &results.components[i];
            let ghost prev = component_selector_map.as_map();
            component_selector_map.insert(comp.selector.clone(), comp.clone());
            proof {
                assert(results.components@.take(i as int + 1).drop_last() =~= results.components@.take(
                    i as int,
                ));
                assert(results.components@.take(i as int + 1).last() == results.components@[i as int]);
                assert(comp_model_view(component_selector_map.as_map()) =~= comp_model_view(
                    prev,
                ).insert(comp.selector@, results.components@[i as int].model()));
            }
            i += 1;
        }
        proof {
            assert(results.components@.take(results.components@.len() as int)
                =~= results.components@);
        }

        let mut directive_selector_map: StrMap<NgDirectiveInfo> = StrMap::new();
        let mut j: usize = 0;
        proof {
            assert(dir_model_view(directive_selector_map.as_map()) =~= dir_selector_fold(
                results.directives@.take(0),
            ));
        }
        while j < results.directives.len()
            invariant
                0 <= j <= results.directives@.len(),
                directive_selector_map.wf(),
                dir_model_view(directive_selector_map.as_map()) == dir_selector_fold(
                    results.directives@.take(j as int),
                ),
            decreases results.directives@.len() - j,
        {
            let dir = &results.directives[j];
            let ghost prev = directive_selector_map.as_map();
            directive_selector_map.insert(dir.selector.clone(), dir.clone());
            proof {
                assert(results.directives@.take(j as int + 1).drop_last() =~= results.directives@.take(
                    j as int,
                ));
                assert(results.directives@.take(j as int + 1).last() == results.directives@[j as int]);
                assert(dir_model_view(directive_selector_map.as_map()) =~= dir_model_view(
                    prev,
                ).insert(dir.selector@, results.directives@[j as int].model()));
            }
            j += 1;
        }
        proof {
            assert(results.directives@.take(results.directives@.len() as int)
                =~= results.directives@);
        }

        let mut pipe_selector_map: StrMap<NgPipeInfo> = StrMap::new();
        let mut k: usize = 0;
        proof {
            assert(pipe_model_view(pipe_selector_map.as_map()) =~= pipe_name_fold(
                results.pipes@.take(0),
            ));
        }
        while k < results.pipes.len()
            invariant
                0 <= k <= results.pipes@.len(),
                pipe_selector_map.wf(),
                pipe_model_view(pipe_selector_map.as_map()) == pipe_name_fold(
                    results.pipes@.take(k as int),
                ),
            decreases results.pipes@.len() - k,
        {
            let pipe = &results.pipes[k];
            let ghost prev = pipe_selector_map.as_map();
            pipe_selector_map.insert(pipe.name.clone(), pipe.clone());
            proof {
                assert(results.pipes@.take(k as int + 1).drop_last() =~= results.pipes@.take(
                    k as int,
                ));
                assert(results.pipes@.take(k as int + 1).last() == results.pipes@[k as int]);
                assert(pipe_model_view(pipe_selector_map.as_map()) =~= pipe_model_view(
                    prev,
                ).insert(pipe.name@, results.pipes@[k as int].model()));
            }
            k += 1;
        }
        proof {
            assert(results.pipes@.take(results.pipes@.len() as int) =~= results.pipes@);
        }

        NgSelectorMaps { component_selector_map, directive_selector_map, pipe_selector_map }
    }
}

/// The base records of each kind of element, in list order.
pub open spec fn bases_of_comps(s: Seq<NgComponentInfo>) -> Seq<NgBaseModel> {
    s.map_values(|c: NgComponentInfo| c.base.model())
}

pub open spec fn bases_of_dirs(s: Seq<NgDirectiveInfo>) -> Seq<NgBaseModel> {
    s.map_values(|d: NgDirectiveInfo| d.base.model())
}

pub open spec fn bases_of_pipes(s: Seq<NgPipeInfo>) -> Seq<NgBaseModel> {
    s.map_values(|p: NgPipeInfo| p.base.model())
}

pub open spec fn bases_of_modules(s: Seq<crate::ng_models::NgModuleInfo>) -> Seq<NgBaseModel> {
    s.map_values(|m: crate::ng_models::NgModuleInfo| m.base.model())
}

pub open spec fn bases_of_services(s: Seq<crate::ng_models::NgServiceInfo>) -> Seq<NgBaseModel> {
    s.map_values(|m: crate::ng_models::NgServiceInfo| m.base.model())
}

/// The path map a result denotes: components, directives, pipes, modules
/// and services inserted in that order, keyed by relative path.
pub open spec fn spec_path_map(results: &NgAnalysisResults) -> Map<Seq<char>, NgBaseModel> {
    path_fold(
        path_fold(
            path_fold(
                path_fold(
                    path_fold(Map::empty(), bases_of_comps(results.components@)),
                    bases_of_dirs(results.directives@),
                ),
                bases_of_pipes(results.pipes@),
            ),
            bases_of_modules(results.modules@),
        ),
        bases_of_services(results.services@),
    )
}

/// Elements keyed by workspace-relative path.
pub struct NgPathMap {
    pub path_map: StrMap<NgElement>,
}

impl NgPathMap {
    pub open spec fn wf(&self) -> bool {
        self.path_map.wf()
    }

    /// Build the path map from a result's element lists; a later element
    /// with the same path wins.
    pub fn build_from_results(results: &NgAnalysisResults) -> (r: Self)
        ensures
            r.wf(),
            elem_base_view(r.path_map.as_map()) == spec_path_map(results),
    {
        let mut path_map: StrMap<NgElement> = StrMap::new();
        proof {
            assert(elem_base_view(path_map.as_map()) =~= path_fold(
                Map::empty(),
                bases_of_comps(results.components@.take(0)),
            ));
        }
        let mut i: usize = 0;
        while i < results.components.len()
            invariant
                0 <= i <= results.components@.len(),
                path_map.wf(),
                elem_base_view(path_map.as_map()) == path_fold(
                    Map::empty(),
                    bases_of_comps(results.components@.take(i as int)),
                ),
            decreases results.components@.len() - i,
        {
            let c = &results.components[i];
            let ghost prev = path_map.as_map();
            path_map.insert(c.base.relative_path.clone(), NgElement::Component(c.clone()));
            proof {
                assert(bases_of_comps(results.components@.take(i as int + 1)).drop_last()
                    =~= bases_of_comps(results.components@.take(i as int)));
                assert(elem_base_view(path_map.as_map()) =~= elem_base_view(prev).insert(
                    c.base.relative_path@,
                    results.components@[i as int].base.model(),
                ));
            }
            i += 1;
        }
        proof {
            assert(results.components@.take(results.components@.len() as int)
                =~= results.components@);
        }
        let ghost m1 = elem_base_view(path_map.as_map());
        let mut j: usize = 0;
        while j < results.directives.len()
            invariant
                0 <= j <= results.directives@.len(),
                path_map.wf(),
                elem_base_view(path_map.as_map()) == path_fold(
                    m1,
                    bases_of_dirs(results.directives@.take(j as int)),
                ),
            decreases results.directives@.len() - j,
        {
            let d = &results.directives[j];
            let ghost prev = path_map.as_map();
            path_map.insert(d.base.relative_path.clone(), NgElement::Directive(d.clone()));
            proof {
                assert(bases_of_dirs(results.directives@.take(j as int + 1)).drop_last()
                    =~= bases_of_dirs(results.directives@.take(j as int)));
                assert(elem_base_view(path_map.as_map()) =~= elem_base_view(prev).insert(
                    d.base.relative_path@,
                    results.directives@[j as int].base.model(),
                ));
            }
            j += 1;
        }
        proof {
            assert(results.directives@.take(results.directives@.len() as int)
                =~= results.directives@);
            assert(path_fold(m1, bases_of_dirs(results.directives@.take(0))) =~= m1);
        }
        let ghost m2 = elem_base_view(path_map.as_map());
        let mut k: usize = 0;
        while k < results.pipes.len()
            invariant
                0 <= k <= results.pipes@.len(),
                path_map.wf(),
                elem_base_view(path_map.as_map()) == path_fold(
                    m2,
                    bases_of_pipes(results.pipes@.take(k as int)),
                ),
            decreases results.pipes@.len() - k,
        {
            let p = &results.pipes[k];
            let ghost prev = path_map.as_map();
            path_map.insert(p.base.relative_path.clone(), NgElement::Pipe(p.clone()));
            proof {
                assert(bases_of_pipes(results.pipes@.take(k as int + 1)).drop_last()
                    =~= bases_of_pipes(results.pipes@.take(k as int)));
                assert(elem_base_view(path_map.as_map()) =~= elem_base_view(prev).insert(
                    p.base.relative_path@,
                    results.pipes@[k as int].base.model(),
                ));
            }
            k += 1;
        }
        proof {
            assert(results.pipes@.take(results.pipes@.len() as int) =~= results.pipes@);
        }
        let ghost m3 = elem_base_view(path_map.as_map());
        let mut t: usize = 0;
        while t < results.modules.len()
            invariant
                0 <= t <= results.modules@.len(),
                path_map.wf(),
                elem_base_view(path_map.as_map()) == path_fold(
                    m3,
                    bases_of_modules(results.modules@.take(t as int)),
                ),
            decreases results.modules@.len() - t,
        {
            let m = &results.modules[t];
            let ghost prev = path_map.as_map();
            path_map.insert(m.base.relative_path.clone(), NgElement::Module(m.clone()));
            proof {
                assert(bases_of_modules(results.modules@.take(t as int + 1)).drop_last()
                    =~= bases_of_modules(results.modules@.take(t as int)));
                assert(elem_base_view(path_map.as_map()) =~= elem_base_view(prev).insert(
                    m.base.relative_path@,
                    results.modules@[t as int].base.model(),
                ));
            }
            t += 1;
        }
        proof {
            assert(results.modules@.take(results.modules@.len() as int) =~= results.modules@);
        }
        let ghost m4 = elem_base_view(path_map.as_map());
        let mut u: usize = 0;
        while u < results.services.len()
            invariant
                0 <= u <= results.services@.len(),
                path_map.wf(),
                elem_base_view(path_map.as_map()) == path_fold(
                    m4,
                    bases_of_services(results.services@.take(u as int)),
                ),
            decreases results.services@.len() - u,
        {
            let s = &results.services[u];
            let ghost prev = path_map.as_map();
            path_map.insert(s.base.relative_path.clone(), NgElement::Service(s.clone()));
            proof {
                assert(bases_of_services(results.services@.take(u as int + 1)).drop_last()
                    =~= bases_of_services(results.services@.take(u as int)));
                assert(elem_base_view(path_map.as_map()) =~= elem_base_view(prev).insert(
                    s.base.relative_path@,
                    results.services@[u as int].base.model(),
                ));
            }
            u += 1;
        }
        proof {
            assert(results.services@.take(results.services@.len() as int) =~= results.services@);
        }
        NgPathMap { path_map }
    }
}

} // verus!
