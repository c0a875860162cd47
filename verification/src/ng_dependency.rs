//! Cross-element dependency analysis: who uses whom, found through
//! template usages and through resolved imports, and written back onto
//! each element as its references.

use vstd::prelude::*;

use crate::imports::ResolvedImport;
use crate::ng_maps::{
    bases_of_comps, bases_of_dirs, bases_of_modules, bases_of_pipes, bases_of_services,
    comp_model_view, dir_model_view, elem_base_view, pipe_model_view, NgPathMap, NgSelectorMaps,
};
use crate::ng_models::{
    NgBaseInfo, NgBaseModel, NgComponentModel, NgDirectiveModel, NgElement, NgOtherInfo,
    NgPipeModel, NgReferences, NgTestSpecInfo, NgComponentInfo, NgDirectiveInfo, NgModuleInfo,
    NgPipeInfo, NgServiceInfo,
};
use crate::ng_results::NgAnalysisResults;
use crate::strmap::StrMap;
use crate::strutil::{concat_str, str_eq};

verus! {

/// The key an element is tracked under: `name:relative-path`.
pub open spec fn spec_base_key(b: NgBaseModel) -> Seq<char> {
    b.name@ + ":"@ + b.relative_path@
}

/// The contents of one references record.
pub open spec fn refs_view(r: NgReferences) -> (Seq<Seq<char>>, Seq<Seq<char>>) {
    r.model()
}

/// The contents of the usage-statistics map.
pub open spec fn stats_view(m: Map<Seq<char>, NgReferences>) -> Map<
    Seq<char>,
    (Seq<Seq<char>>, Seq<Seq<char>>),
> {
    m.map_values(|r: NgReferences| refs_view(r))
}

/// The record for `ukey`, with `by` appended to its template references.
pub open spec fn add_template_ref(
    s: Map<Seq<char>, (Seq<Seq<char>>, Seq<Seq<char>>)>,
    ukey: Seq<char>,
    by: Seq<char>,
) -> Map<Seq<char>, (Seq<Seq<char>>, Seq<Seq<char>>)> {
    let cur = if s.contains_key(ukey) {
        s[ukey]
    } else {
        (Seq::<Seq<char>>::empty(), Seq::<Seq<char>>::empty())
    };
    s.insert(ukey, (cur.0.push(by), cur.1))
}

/// The record for `ukey`, with `by` appended to its import references.
pub open spec fn add_import_ref(
    s: Map<Seq<char>, (Seq<Seq<char>>, Seq<Seq<char>>)>,
    ukey: Seq<char>,
    by: Seq<char>,
) -> Map<Seq<char>, (Seq<Seq<char>>, Seq<Seq<char>>)> {
    let cur = if s.contains_key(ukey) {
        s[ukey]
    } else {
        (Seq::<Seq<char>>::empty(), Seq::<Seq<char>>::empty())
    };
    s.insert(ukey, (cur.0, cur.1.push(by)))
}

/// How one element's imports change the statistics: each import whose
/// relative path names a known element marks that element as used by this
/// one (never by itself).
pub open spec fn imports_fold(
    pm: Map<Seq<char>, NgBaseModel>,
    ekey: Seq<char>,
    imports: Seq<ResolvedImport>,
    stats: Map<Seq<char>, (Seq<Seq<char>>, Seq<Seq<char>>)>,
) -> Map<Seq<char>, (Seq<Seq<char>>, Seq<Seq<char>>)>
    decreases imports.len(),
{
    if imports.len() == 0 {
        stats
    } else {
        let s1 = imports_fold(pm, ekey, imports.drop_last(), stats);
        let rel = imports.last().relative_path@;
        if pm.contains_key(rel) {
            let ukey = spec_base_key(pm[rel]);
            if ukey != ekey {
                add_import_ref(s1, ukey, ekey)
            } else {
                s1
            }
        } else {
            s1
        }
    }
}

/// `imports_fold`, element by element over base records.
pub open spec fn imports_fold_all(
    pm: Map<Seq<char>, NgBaseModel>,
    bases: Seq<NgBaseModel>,
    stats: Map<Seq<char>, (Seq<Seq<char>>, Seq<Seq<char>>)>,
) -> Map<Seq<char>, (Seq<Seq<char>>, Seq<Seq<char>>)>
    decreases bases.len(),
{
    if bases.len() == 0 {
        stats
    } else {
        let s1 = imports_fold_all(pm, bases.drop_last(), stats);
        imports_fold(pm, spec_base_key(bases.last()), bases.last().imports, s1)
    }
}

pub proof fn lemma_imports_fold_all_concat(
    pm: Map<Seq<char>, NgBaseModel>,
    a: Seq<NgBaseModel>,
    b: Seq<NgBaseModel>,
    stats: Map<Seq<char>, (Seq<Seq<char>>, Seq<Seq<char>>)>,
)
    ensures
        imports_fold_all(pm, a + b, stats) == imports_fold_all(pm, b, imports_fold_all(
            pm,
            a,
            stats,
        )),
    decreases b.len(),
{
    if b.len() == 0 {
        assert(a + b =~= a);
    } else {
        lemma_imports_fold_all_concat(pm, a, b.drop_last(), stats);
        assert((a + b).drop_last() =~= a + b.drop_last());
        assert((a + b).last() == b.last());
    }
}

/// How the component names a template uses, looked up in the component
/// selector map, change the statistics; a use of the component's own key
/// is ignored.
pub open spec fn usage_fold_comp_names(
    cm: Map<Seq<char>, NgComponentModel>,
    ckey: Seq<char>,
    names: Seq<String>,
    stats: Map<Seq<char>, (Seq<Seq<char>>, Seq<Seq<char>>)>,
) -> Map<Seq<char>, (Seq<Seq<char>>, Seq<Seq<char>>)>
    decreases names.len(),
{
    if names.len() == 0 {
        stats
    } else {
        let s1 = usage_fold_comp_names(cm, ckey, names.drop_last(), stats);
        let u = names.last()@;
        if cm.contains_key(u) {
            let ukey = spec_base_key(cm[u].base);
            if ukey != ckey {
                add_template_ref(s1, ukey, ckey)
            } else {
                s1
            }
        } else {
            s1
        }
    }
}

pub open spec fn usage_fold_dir_names(
    dm: Map<Seq<char>, NgDirectiveModel>,
    ckey: Seq<char>,
    names: Seq<String>,
    stats: Map<Seq<char>, (Seq<Seq<char>>, Seq<Seq<char>>)>,
) -> Map<Seq<char>, (Seq<Seq<char>>, Seq<Seq<char>>)>
    decreases names.len(),
{
    if names.len() == 0 {
        stats
    } else {
        let s1 = usage_fold_dir_names(dm, ckey, names.drop_last(), stats);
        let u = names.last()@;
        if dm.contains_key(u) {
            add_template_ref(s1, spec_base_key(dm[u].base), ckey)
        } else {
            s1
        }
    }
}

pub open spec fn usage_fold_pipe_names(
    pmm: Map<Seq<char>, NgPipeModel>,
    ckey: Seq<char>,
    names: Seq<String>,
    stats: Map<Seq<char>, (Seq<Seq<char>>, Seq<Seq<char>>)>,
) -> Map<Seq<char>, (Seq<Seq<char>>, Seq<Seq<char>>)>
    decreases names.len(),
{
    if names.len() == 0 {
        stats
    } else {
        let s1 = usage_fold_pipe_names(pmm, ckey, names.drop_last(), stats);
        let u = names.last()@;
        if pmm.contains_key(u) {
            add_template_ref(s1, spec_base_key(pmm[u].base), ckey)
        } else {
            s1
        }
    }
}

/// How one component's template usages change the statistics: its
/// component uses, then its directive uses, then its pipe uses.
pub open spec fn usage_fold_component(
    cm: Map<Seq<char>, NgComponentModel>,
    dm: Map<Seq<char>, NgDirectiveModel>,
    pmm: Map<Seq<char>, NgPipeModel>,
    comp: NgComponentModel,
    stats: Map<Seq<char>, (Seq<Seq<char>>, Seq<Seq<char>>)>,
) -> Map<Seq<char>, (Seq<Seq<char>>, Seq<Seq<char>>)> {
    let ckey = spec_base_key(comp.base);
    let s1 = usage_fold_comp_names(cm, ckey, comp.template_usages.0, stats);
    let s2 = usage_fold_dir_names(dm, ckey, comp.template_usages.2, s1);
    usage_fold_pipe_names(pmm, ckey, comp.template_usages.1, s2)
}

/// `usage_fold_component`, component by component.
pub open spec fn usage_fold_all(
    cm: Map<Seq<char>, NgComponentModel>,
    dm: Map<Seq<char>, NgDirectiveModel>,
    pmm: Map<Seq<char>, NgPipeModel>,
    comps: Seq<NgComponentModel>,
    stats: Map<Seq<char>, (Seq<Seq<char>>, Seq<Seq<char>>)>,
) -> Map<Seq<char>, (Seq<Seq<char>>, Seq<Seq<char>>)>
    decreases comps.len(),
{
    if comps.len() == 0 {
        stats
    } else {
        usage_fold_component(cm, dm, pmm, comps.last(), usage_fold_all(
            cm,
            dm,
            pmm,
            comps.drop_last(),
            stats,
        ))
    }
}

/// Record that `used_key` is used from a template by `by`.
fn record_template_ref(stats: &mut StrMap<NgReferences>, used_key: String, by: &String)
    requires
        old(stats).wf(),
    ensures
        final(stats).wf(),
        stats_view(final(stats).as_map()) == add_template_ref(
            stats_view(old(stats).as_map()),
            used_key@,
            by@,
        ),
{
    let ghost before = stats.as_map();
    let mut refs = match stats.take(used_key.as_str()) {
        Some(r) => r,
        None => NgReferences::new(),
    };
    let ghost cur = refs_view(refs);
    refs.used_by_template.push(by.clone());
    proof {
        assert(refs.used_by_template@.map_values(|s: String| s@) =~= cur.0.push(by@));
    }
    stats.insert(used_key, refs);
    proof {
        assert(stats.as_map() =~= before.remove(used_key@).insert(used_key@, refs));
        assert(stats_view(stats.as_map()) =~~= add_template_ref(
            stats_view(before),
            used_key@,
            by@,
        ));
    }
}

/// Record that `used_key` is used through imports by `by`.
fn record_import_ref(stats: &mut StrMap<NgReferences>, used_key: String, by: &String)
    requires
        old(stats).wf(),
    ensures
        final(stats).wf(),
        stats_view(final(stats).as_map()) == add_import_ref(
            stats_view(old(stats).as_map()),
            used_key@,
            by@,
        ),
{
    let ghost before = stats.as_map();
    let mut refs = match stats.take(used_key.as_str()) {
        Some(r) => r,
        None => NgReferences::new(),
    };
    let ghost cur = refs_view(refs);
    refs.used_by_imports.push(by.clone());
    proof {
        assert(refs.used_by_imports@.map_values(|s: String| s@) =~= cur.1.push(by@));
    }
    stats.insert(used_key, refs);
    proof {
        assert(stats.as_map() =~= before.remove(used_key@).insert(used_key@, refs));
        assert(stats_view(stats.as_map()) =~~= add_import_ref(
            stats_view(before),
            used_key@,
            by@,
        ));
    }
}

/// Analyzes which elements use which, through templates and imports, and
/// attaches the collected references to each element.
pub struct NgDependencyAnalyzer {
    selector_maps: NgSelectorMaps,
    ng_path_map: NgPathMap,
}

impl NgDependencyAnalyzer {
    pub closed spec fn wf(&self) -> bool {
        self.selector_maps.wf() && self.ng_path_map.wf()
    }

    pub closed spec fn comp_map(&self) -> Map<Seq<char>, NgComponentModel> {
        comp_model_view(self.selector_maps.component_selector_map.as_map())
    }

    pub closed spec fn dir_map(&self) -> Map<Seq<char>, NgDirectiveModel> {
        dir_model_view(self.selector_maps.directive_selector_map.as_map())
    }

    pub closed spec fn pipe_map(&self) -> Map<Seq<char>, NgPipeModel> {
        pipe_model_view(self.selector_maps.pipe_selector_map.as_map())
    }

    pub closed spec fn path_map(&self) -> Map<Seq<char>, NgBaseModel> {
        elem_base_view(self.ng_path_map.path_map.as_map())
    }

    pub fn new(selector_maps: NgSelectorMaps, ng_path_map: NgPathMap) -> (r: Self)
        requires
            selector_maps.wf(),
            ng_path_map.wf(),
        ensures
            r.wf(),
            r.comp_map() == comp_model_view(selector_maps.component_selector_map.as_map()),
            r.dir_map() == dir_model_view(selector_maps.directive_selector_map.as_map()),
            r.pipe_map() == pipe_model_view(selector_maps.pipe_selector_map.as_map()),
            r.path_map() == elem_base_view(ng_path_map.path_map.as_map()),
    {
        NgDependencyAnalyzer { selector_maps, ng_path_map }
    }

    /// The key an element is tracked under.
    pub fn get_base_key(base: &NgBaseInfo) -> (r: String)
        ensures
            r@ == spec_base_key(base.model()),
    {
        let head = concat_str(base.name.as_str(), ":");
        let r = concat_str(head.as_str(), base.relative_path.as_str());
        proof {
            assert(r@ =~= base.name@ + ":"@ + base.relative_path@);
        }
        r
    }

    /// Fold one element's imports into the statistics.
    #[verifier::loop_isolation(false)]
    pub fn process_imports(&self, element: &NgElement, usage_stats: &mut StrMap<NgReferences>)
        requires
            self.wf(),
            old(usage_stats).wf(),
        ensures
            final(usage_stats).wf(),
            stats_view(final(usage_stats).as_map()) == imports_fold(
                self.path_map(),
                spec_base_key(element.get_base_spec().model()),
                element.get_base_spec().imports@,
                stats_view(old(usage_stats).as_map()),
            ),
    {
        let base = element.get_base();
        let element_key = Self::get_base_key(base);
        let ghost pm = self.path_map();
        let ghost ekey = spec_base_key(element.get_base_spec().model());
        let ghost imps = element.get_base_spec().imports@;
        let ghost stats0 = stats_view(usage_stats.as_map());
        let imports = &base.imports;
        let mut i: usize = 0;
        proof {
            assert(imports_fold(pm, ekey, imps.take(0), stats0) == stats0);
        }
        while i < imports.len()
            invariant
                0 <= i <= imps.len(),
                imports@ == imps,
                usage_stats.wf(),
                stats_view(usage_stats.as_map()) == imports_fold(pm, ekey, imps.take(i as int), stats0),
            decreases imps.len() - i,
        {
            let imp = &imports[i];
            proof {
                assert(imps.take(i as int + 1).drop_last() =~= imps.take(i as int));
                assert(imps.take(i as int + 1).last() == imps[i as int]);
            }
            match self.ng_path_map.path_map.get(imp.relative_path.as_str()) {
                Some(used_element) => {
                    proof {
                        assert(pm.contains_key(imp.relative_path@));
                        assert(pm[imp.relative_path@] == used_element.get_base_spec().model());
                    }
                    let used_key = Self::get_base_key(used_element.get_base());
                    if !str_eq(element_key.as_str(), used_key.as_str()) {
                        record_import_ref(usage_stats, used_key, &element_key);
                    }
                },
                None => {
                    proof {
                        assert(!pm.contains_key(imp.relative_path@));
                    }
                },
            }
            i += 1;
        }
        proof {
            assert(imps.take(imps.len() as int) =~= imps);
        }
    }

    /// Fold every element's imports into the statistics: components,
    /// directives, pipes, modules, services, plain files and test specs,
    /// in that order.
    #[verifier::loop_isolation(false)]
    #[verifier::rlimit(100)]
    pub fn find_dependencies_based_on_imports(
        &self,
        results: &NgAnalysisResults,
        usage_stats: &mut StrMap<NgReferences>,
    )
        requires
            self.wf(),
            old(usage_stats).wf(),
        ensures
            final(usage_stats).wf(),
            stats_view(final(usage_stats).as_map()) == imports_fold_all(
                self.path_map(),
                bases_of_comps(results.components@) + bases_of_dirs(results.directives@)
                    + bases_of_pipes(results.pipes@) + bases_of_modules(results.modules@)
                    + bases_of_services(results.services@) + bases_of_others(results.others@)
                    + bases_of_specs(results.test_specs@),
                stats_view(old(usage_stats).as_map()),
            ),
    {
        let ghost pm = self.path_map();
        let ghost stats0 = stats_view(usage_stats.as_map());

        let ghost c0 = stats_view(usage_stats.as_map());
        let mut i: usize = 0;
        while i < results.components.len()
            invariant
                0 <= i <= results.components@.len(),
                usage_stats.wf(),
                stats_view(usage_stats.as_map()) == imports_fold_all(
                    pm,
                    bases_of_comps(results.components@.take(i as int)),
                    c0,
                ),
            decreases results.components@.len() - i,
        {
            let element = NgElement::Component(results.components[i].clone());
            proof {
                assert(bases_of_comps(results.components@.take(i as int + 1)).drop_last()
                    =~= bases_of_comps(results.components@.take(i as int)));
                assert(bases_of_comps(results.components@.take(i as int + 1)).last()
                    == results.components@[i as int].base.model());
            }
            self.process_imports(&element, usage_stats);
            i += 1;
        }
        proof {
            assert(results.components@.take(results.components@.len() as int)
                =~= results.components@);
        }

        let ghost c1 = stats_view(usage_stats.as_map());
        let mut j: usize = 0;
        while j < results.directives.len()
            invariant
                0 <= j <= results.directives@.len(),
                usage_stats.wf(),
                stats_view(usage_stats.as_map()) == imports_fold_all(
                    pm,
                    bases_of_dirs(results.directives@.take(j as int)),
                    c1,
                ),
            decreases results.directives@.len() - j,
        {
            let element = NgElement::Directive(results.directives[j].clone());
            proof {
                assert(bases_of_dirs(results.directives@.take(j as int + 1)).drop_last()
                    =~= bases_of_dirs(results.directives@.take(j as int)));
                assert(bases_of_dirs(results.directives@.take(j as int + 1)).last()
                    == results.directives@[j as int].base.model());
            }
            self.process_imports(&element, usage_stats);
            j += 1;
        }
        proof {
            assert(results.directives@.take(results.directives@.len() as int)
                =~= results.directives@);
        }

        let ghost c2 = stats_view(usage_stats.as_map());
        let mut k: usize = 0;
        while k < results.pipes.len()
            invariant
                0 <= k <= results.pipes@.len(),
                usage_stats.wf(),
                stats_view(usage_stats.as_map()) == imports_fold_all(
                    pm,
                    bases_of_pipes(results.pipes@.take(k as int)),
                    c2,
                ),
            decreases results.pipes@.len() - k,
        {
            let element = NgElement::Pipe(results.pipes[k].clone());
            proof {
                assert(bases_of_pipes(results.pipes@.take(k as int + 1)).drop_last()
                    =~= bases_of_pipes(results.pipes@.take(k as int)));
                assert(bases_of_pipes(results.pipes@.take(k as int + 1)).last()
                    == results.pipes@[k as int].base.model());
            }
            self.process_imports(&element, usage_stats);
            k += 1;
        }
        proof {
            assert(results.pipes@.take(results.pipes@.len() as int) =~= results.pipes@);
        }

        let ghost c3 = stats_view(usage_stats.as_map());
        let mut t: usize = 0;
        while t < results.modules.len()
            invariant
                0 <= t <= results.modules@.len(),
                usage_stats.wf(),
                stats_view(usage_stats.as_map()) == imports_fold_all(
                    pm,
                    bases_of_modules(results.modules@.take(t as int)),
                    c3,
                ),
            decreases results.modules@.len() - t,
        {
            let element = NgElement::Module(results.modules[t].clone());
            proof {
                assert(bases_of_modules(results.modules@.take(t as int + 1)).drop_last()
                    =~= bases_of_modules(results.modules@.take(t as int)));
                assert(bases_of_modules(results.modules@.take(t as int + 1)).last()
                    == results.modules@[t as int].base.model());
            }
            self.process_imports(&element, usage_stats);
            t += 1;
        }
        proof {
            assert(results.modules@.take(results.modules@.len() as int) =~= results.modules@);
        }

        let ghost c4 = stats_view(usage_stats.as_map());
        let mut u: usize = 0;
        while u < results.services.len()
            invariant
                0 <= u <= results.services@.len(),
                usage_stats.wf(),
                stats_view(usage_stats.as_map()) == imports_fold_all(
                    pm,
                    bases_of_services(results.services@.take(u as int)),
                    c4,
                ),
            decreases results.services@.len() - u,
        {
            let element = NgElement::Service(results.services[u].clone());
            proof {
                assert(bases_of_services(results.services@.take(u as int + 1)).drop_last()
                    =~= bases_of_services(results.services@.take(u as int)));
                assert(bases_of_services(results.services@.take(u as int + 1)).last()
                    == results.services@[u as int].base.model());
            }
            self.process_imports(&element, usage_stats);
            u += 1;
        }
        proof {
            assert(results.services@.take(results.services@.len() as int) =~= results.services@);
        }

        let ghost c5 = stats_view(usage_stats.as_map());
        let mut v: usize = 0;
        while v < results.others.len()
            invariant
                0 <= v <= results.others@.len(),
                usage_stats.wf(),
                stats_view(usage_stats.as_map()) == imports_fold_all(
                    pm,
                    bases_of_others(results.others@.take(v as int)),
                    c5,
                ),
            decreases results.others@.len() - v,
        {
            let element = NgElement::Other(results.others[v].clone());
            proof {
                assert(bases_of_others(results.others@.take(v as int + 1)).drop_last()
                    =~= bases_of_others(results.others@.take(v as int)));
                assert(bases_of_others(results.others@.take(v as int + 1)).last()
                    == results.others@[v as int].base.model());
            }
            self.process_imports(&element, usage_stats);
            v += 1;
        }
        proof {
            assert(results.others@.take(results.others@.len() as int) =~= results.others@);
        }

        let ghost c6 = stats_view(usage_stats.as_map());
        let mut w: usize = 0;
        while w < results.test_specs.len()
            invariant
                0 <= w <= results.test_specs@.len(),
                usage_stats.wf(),
                stats_view(usage_stats.as_map()) == imports_fold_all(
                    pm,
                    bases_of_specs(results.test_specs@.take(w as int)),
                    c6,
                ),
            decreases results.test_specs@.len() - w,
        {
            let element = NgElement::TestSpec(results.test_specs[w].clone());
            proof {
                assert(bases_of_specs(results.test_specs@.take(w as int + 1)).drop_last()
                    =~= bases_of_specs(results.test_specs@.take(w as int)));
                assert(bases_of_specs(results.test_specs@.take(w as int + 1)).last()
                    == results.test_specs@[w as int].base.model());
            }
            self.process_imports(&element, usage_stats);
            w += 1;
        }
        proof {
            assert(results.test_specs@.take(results.test_specs@.len() as int)
                =~= results.test_specs@);
            let ba = bases_of_comps(results.components@);
            let bb = bases_of_dirs(results.directives@);
            let bc = bases_of_pipes(results.pipes@);
            let bd = bases_of_modules(results.modules@);
            let be = bases_of_services(results.services@);
            let bf = bases_of_others(results.others@);
            let bg = bases_of_specs(results.test_specs@);
            lemma_imports_fold_all_concat(pm, ba, bb, stats0);
            lemma_imports_fold_all_concat(pm, ba + bb, bc, stats0);
            lemma_imports_fold_all_concat(pm, ba + bb + bc, bd, stats0);
            lemma_imports_fold_all_concat(pm, ba + bb + bc + bd, be, stats0);
            lemma_imports_fold_all_concat(pm, ba + bb + bc + bd + be, bf, stats0);
            lemma_imports_fold_all_concat(pm, ba + bb + bc + bd + be + bf, bg, stats0);
        }
    }

    /// Fold every component's template usages into the statistics.
    #[verifier::loop_isolation(false)]
    pub fn find_dependencies_based_on_template_usages(
        &self,
        results: &NgAnalysisResults,
        usage_stats: &mut StrMap<NgReferences>,
    )
        requires
            self.wf(),
            old(usage_stats).wf(),
        ensures
            final(usage_stats).wf(),
            stats_view(final(usage_stats).as_map()) == usage_fold_all(
                self.comp_map(),
                self.dir_map(),
                self.pipe_map(),
                results.components@.map_values(|c: NgComponentInfo| c.model()),
                stats_view(old(usage_stats).as_map()),
            ),
    {
        let ghost cm = self.comp_map();
        let ghost dm = self.dir_map();
        let ghost pmm = self.pipe_map();
        let ghost cmodels = results.components@.map_values(|c: NgComponentInfo| c.model());
        let ghost stats0 = stats_view(usage_stats.as_map());
        let mut i: usize = 0;
        while i < results.components.len()
            invariant
                0 <= i <= cmodels.len(),
                cmodels == results.components@.map_values(|c: NgComponentInfo| c.model()),
                usage_stats.wf(),
                stats_view(usage_stats.as_map()) == usage_fold_all(
                    cm,
                    dm,
                    pmm,
                    cmodels.take(i as int),
                    stats0,
                ),
            decreases cmodels.len() - i,
        {
            let component = &results.components[i];
            let component_key = Self::get_base_key(&component.base);
            let ghost ckey = spec_base_key(component.base.model());
            proof {
                assert(cmodels.take(i as int + 1).drop_last() =~= cmodels.take(i as int));
                assert(cmodels.take(i as int + 1).last() == cmodels[i as int]);
                assert(cmodels[i as int] == results.components@[i as int].model());
            }
            let ghost sa = stats_view(usage_stats.as_map());

            let cu = &component.template_usages.components;
            let mut a: usize = 0;
            while a < cu.len()
                invariant
                    0 <= a <= cu@.len(),
                    usage_stats.wf(),
                    stats_view(usage_stats.as_map()) == usage_fold_comp_names(
                        cm,
                        ckey,
                        cu@.take(a as int),
                        sa,
                    ),
                decreases cu@.len() - a,
            {
                proof {
                    assert(cu@.take(a as int + 1).drop_last() =~= cu@.take(a as int));
                    assert(cu@.take(a as int + 1).last() == cu@[a as int]);
                }
                match self.selector_maps.component_selector_map.get(cu[a].as_str()) {
                    Some(used_component) => {
                        proof {
                            assert(cm.contains_key(cu@[a as int]@));
                            assert(cm[cu@[a as int]@] == used_component.model());
                        }
                        let used_key = Self::get_base_key(&used_component.base);
                        if !str_eq(component_key.as_str(), used_key.as_str()) {
                            record_template_ref(usage_stats, used_key, &component_key);
                        }
                    },
                    None => {
                        proof {
                            assert(!cm.contains_key(cu@[a as int]@));
                        }
                    },
                }
                a += 1;
            }
            proof {
                assert(cu@.take(cu@.len() as int) =~= cu@);
            }

            let ghost sb = stats_view(usage_stats.as_map());
            let du = &component.template_usages.directives;
            let mut b: usize = 0;
            while b < du.len()
                invariant
                    0 <= b <= du@.len(),
                    usage_stats.wf(),
                    stats_view(usage_stats.as_map()) == usage_fold_dir_names(
                        dm,
                        ckey,
                        du@.take(b as int),
                        sb,
                    ),
                decreases du@.len() - b,
            {
                proof {
                    assert(du@.take(b as int + 1).drop_last() =~= du@.take(b as int));
                    assert(du@.take(b as int + 1).last() == du@[b as int]);
                }
                match self.selector_maps.directive_selector_map.get(du[b].as_str()) {
                    Some(used_directive) => {
                        proof {
                            assert(dm.contains_key(du@[b as int]@));
                            assert(dm[du@[b as int]@] == used_directive.model());
                        }
                        let used_key = Self::get_base_key(&used_directive.base);
                        record_template_ref(usage_stats, used_key, &component_key);
                    },
                    None => {
                        proof {
                            assert(!dm.contains_key(du@[b as int]@));
                        }
                    },
                }
                b += 1;
            }
            proof {
                assert(du@.take(du@.len() as int) =~= du@);
            }

            let ghost sc = stats_view(usage_stats.as_map());
            let pu = &component.template_usages.pipes;
            let mut c: usize = 0;
            while c < pu.len()
                invariant
                    0 <= c <= pu@.len(),
                    usage_stats.wf(),
                    stats_view(usage_stats.as_map()) == usage_fold_pipe_names(
                        pmm,
                        ckey,
                        pu@.take(c as int),
                        sc,
                    ),
                decreases pu@.len() - c,
            {
                proof {
                    assert(pu@.take(c as int + 1).drop_last() =~= pu@.take(c as int));
                    assert(pu@.take(c as int + 1).last() == pu@[c as int]);
                }
                match self.selector_maps.pipe_selector_map.get(pu[c].as_str()) {
                    Some(used_pipe) => {
                        proof {
                            assert(pmm.contains_key(pu@[c as int]@));
                            assert(pmm[pu@[c as int]@] == used_pipe.model());
                        }
                        let used_key = Self::get_base_key(&used_pipe.base);
                        record_template_ref(usage_stats, used_key, &component_key);
                    },
                    None => {
                        proof {
                            assert(!pmm.contains_key(pu@[c as int]@));
                        }
                    },
                }
                c += 1;
            }
            proof {
                assert(pu@.take(pu@.len() as int) =~= pu@);
                assert(cu@ == cmodels[i as int].template_usages.0);
                assert(du@ == cmodels[i as int].template_usages.2);
                assert(pu@ == cmodels[i as int].template_usages.1);
            }
            i += 1;
        }
        proof {
            assert(cmodels.take(cmodels.len() as int) =~= cmodels);
        }
    }
}

/// A base record with the references a statistics map holds for its key
/// (unchanged when the map has no entry).
pub open spec fn with_refs_base(
    b: NgBaseModel,
    stats: Map<Seq<char>, (Seq<Seq<char>>, Seq<Seq<char>>)>,
) -> NgBaseModel {
    let k = spec_base_key(b);
    if stats.contains_key(k) {
        NgBaseModel { references: stats[k], ..b }
    } else {
        b
    }
}

impl NgDependencyAnalyzer {
    /// All usage statistics for a result: template usages first, then
    /// imports, starting from empty statistics.
    pub open spec fn spec_usage_stats(&self, results: &NgAnalysisResults) -> Map<
        Seq<char>,
        (Seq<Seq<char>>, Seq<Seq<char>>),
    > {
        imports_fold_all(
            self.path_map(),
            bases_of_comps(results.components@) + bases_of_dirs(results.directives@)
                + bases_of_pipes(results.pipes@) + bases_of_modules(results.modules@)
                + bases_of_services(results.services@) + bases_of_others(results.others@)
                + bases_of_specs(results.test_specs@),
            usage_fold_all(
                self.comp_map(),
                self.dir_map(),
                self.pipe_map(),
                results.components@.map_values(|c: NgComponentInfo| c.model()),
                Map::empty(),
            ),
        )
    }

    /// Attach the references collected in the statistics to every element
    /// that has an entry; elements without one keep empty references.
    pub fn assign_references(
        &self,
        results: &mut NgAnalysisResults,
        usage_stats: &StrMap<NgReferences>,
    )
        requires
            usage_stats.wf(),
        ensures
            ({
                let sv = stats_view(usage_stats.as_map());
                &&& final(results).components@.len() == old(results).components@.len()
                &&& forall|i: int|
                    0 <= i < old(results).components@.len()
                        ==> (#[trigger] final(results).components@[i]).model().base
                        == with_refs_base(old(results).components@[i].model().base, sv)
                        && final(results).components@[i].model() == (NgComponentModel {
                        base: final(results).components@[i].model().base,
                        ..old(results).components@[i].model()
                    })
                &&& final(results).directives@.len() == old(results).directives@.len()
                &&& forall|i: int|
                    0 <= i < old(results).directives@.len()
                        ==> (#[trigger] final(results).directives@[i]).model().base
                        == with_refs_base(old(results).directives@[i].model().base, sv)
                        && final(results).directives@[i].model() == (NgDirectiveModel {
                        base: final(results).directives@[i].model().base,
                        ..old(results).directives@[i].model()
                    })
                &&& final(results).pipes@.len() == old(results).pipes@.len()
                &&& forall|i: int|
                    0 <= i < old(results).pipes@.len()
                        ==> (#[trigger] final(results).pipes@[i]).model().base == with_refs_base(
                        old(results).pipes@[i].model().base,
                        sv,
                    ) && final(results).pipes@[i].model() == (NgPipeModel {
                        base: final(results).pipes@[i].model().base,
                        ..old(results).pipes@[i].model()
                    })
                &&& final(results).modules@.len() == old(results).modules@.len()
                &&& forall|i: int|
                    0 <= i < old(results).modules@.len()
                        ==> (#[trigger] final(results).modules@[i]).model().base
                        == with_refs_base(old(results).modules@[i].model().base, sv)
                        && final(results).modules@[i].model()
                        == (crate::ng_models::NgModuleModel {
                        base: final(results).modules@[i].model().base,
                        ..old(results).modules@[i].model()
                    })
                &&& final(results).services@.len() == old(results).services@.len()
                &&& forall|i: int|
                    0 <= i < old(results).services@.len()
                        ==> (#[trigger] final(results).services@[i]).model().base
                        == with_refs_base(old(results).services@[i].model().base, sv)
                        && final(results).services@[i].model()
                        == (crate::ng_models::NgServiceModel {
                        base: final(results).services@[i].model().base,
                        ..old(results).services@[i].model()
                    })
                &&& final(results).others@.len() == old(results).others@.len()
                &&& forall|i: int|
                    0 <= i < old(results).others@.len() ==> (#[trigger] final(results).others@[i]).model() == with_refs_base(
                        old(results).others@[i].model(),
                        sv,
                    )
                &&& final(results).test_specs@.len() == old(results).test_specs@.len()
                &&& forall|i: int|
                    0 <= i < old(results).test_specs@.len() ==> (#[trigger] final(results).test_specs@[i]).model() == with_refs_base(
                        old(results).test_specs@[i].model(),
                        sv,
                    )
                &&& final(results).base_path == old(results).base_path
            }),
    {
        let new_components = assign_comp_refs(&results.components, usage_stats);
        results.components = new_components;
        let new_directives = assign_dir_refs(&results.directives, usage_stats);
        results.directives = new_directives;
        let new_pipes = assign_pipe_refs(&results.pipes, usage_stats);
        results.pipes = new_pipes;
        let new_modules = assign_module_refs(&results.modules, usage_stats);
        results.modules = new_modules;
        let new_services = assign_service_refs(&results.services, usage_stats);
        results.services = new_services;
        let new_others = assign_other_refs(&results.others, usage_stats);
        results.others = new_others;
        let new_specs = assign_spec_refs(&results.test_specs, usage_stats);
        results.test_specs = new_specs;
    }

    /// Run the whole dependency analysis: collect usage statistics from
    /// template usages and imports, then attach them as references.
    pub fn analyze_dependencies(&self, results: &mut NgAnalysisResults)
        requires
            self.wf(),
        ensures
            ({
                let sv = self.spec_usage_stats(old(results));
                &&& final(results).components@.len() == old(results).components@.len()
                &&& forall|i: int|
                    0 <= i < old(results).components@.len()
                        ==> (#[trigger] final(results).components@[i]).model().base
                        == with_refs_base(old(results).components@[i].model().base, sv)
                &&& final(results).directives@.len() == old(results).directives@.len()
                &&& forall|i: int|
                    0 <= i < old(results).directives@.len()
                        ==> (#[trigger] final(results).directives@[i]).model().base
                        == with_refs_base(old(results).directives@[i].model().base, sv)
                &&& final(results).pipes@.len() == old(results).pipes@.len()
                &&& forall|i: int|
                    0 <= i < old(results).pipes@.len()
                        ==> (#[trigger] final(results).pipes@[i]).model().base == with_refs_base(
                        old(results).pipes@[i].model().base,
                        sv,
                    )
                &&& final(results).modules@.len() == old(results).modules@.len()
                &&& forall|i: int|
                    0 <= i < old(results).modules@.len()
                        ==> (#[trigger] final(results).modules@[i]).model().base
                        == with_refs_base(old(results).modules@[i].model().base, sv)
                &&& final(results).services@.len() == old(results).services@.len()
                &&& forall|i: int|
                    0 <= i < old(results).services@.len()
                        ==> (#[trigger] final(results).services@[i]).model().base
                        == with_refs_base(old(results).services@[i].model().base, sv)
                &&& final(results).others@.len() == old(results).others@.len()
                &&& forall|i: int|
                    0 <= i < old(results).others@.len() ==> (#[trigger] final(results).others@[i]).model() == with_refs_base(
                        old(results).others@[i].model(),
                        sv,
                    )
                &&& final(results).test_specs@.len() == old(results).test_specs@.len()
                &&& forall|i: int|
                    0 <= i < old(results).test_specs@.len() ==> (#[trigger] final(results).test_specs@[i]).model() == with_refs_base(
                        old(results).test_specs@[i].model(),
                        sv,
                    )
            }),
    {
        let mut usage_stats: StrMap<NgReferences> = StrMap::new();
        proof {
            assert(stats_view(usage_stats.as_map()) =~= Map::<
                Seq<char>,
                (Seq<Seq<char>>, Seq<Seq<char>>),
            >::empty());
        }
        self.find_dependencies_based_on_template_usages(results, &mut usage_stats);
        self.find_dependencies_based_on_imports(results, &mut usage_stats);
        self.assign_references(results, &usage_stats);
    }
}

/// Rebuild a component list with references attached from the statistics.
#[verifier::loop_isolation(false)]
fn assign_comp_refs(comps: &Vec<NgComponentInfo>, stats: &StrMap<NgReferences>) -> (r: Vec<
    NgComponentInfo,
>)
    requires
        stats.wf(),
    ensures
        r@.len() == comps@.len(),
        forall|i: int|
            0 <= i < comps@.len() ==> (#[trigger] r@[i]).model().base == with_refs_base(
                comps@[i].model().base,
                stats_view(stats.as_map()),
            ) && r@[i].model() == (NgComponentModel {
                base: r@[i].model().base,
                ..comps@[i].model()
            }),
{
    let ghost sv = stats_view(stats.as_map());
    let mut out: Vec<NgComponentInfo> = Vec::new();
    let mut i: usize = 0;
    while i < comps.len()
        invariant
            0 <= i <= comps@.len(),
            out@.len() == i,
            forall|t: int|
                0 <= t < i ==> (#[trigger] out@[t]).model().base == with_refs_base(
                    comps@[t].model().base,
                    sv,
                ) && out@[t].model() == (NgComponentModel {
                    base: out@[t].model().base,
                    ..comps@[t].model()
                }),
        decreases comps@.len() - i,
    {
        let c = &comps[i];
        let key = NgDependencyAnalyzer::get_base_key(&c.base);
        let mut c2 = c.clone();
        match stats.get(key.as_str()) {
            Some(refs) => {
                c2.base.references = refs.clone();
            },
            None => {},
        }
        out.push(c2);
        i += 1;
    }
    out
}

/// Rebuild a directive list with references attached.
#[verifier::loop_isolation(false)]
fn assign_dir_refs(dirs: &Vec<NgDirectiveInfo>, stats: &StrMap<NgReferences>) -> (r: Vec<
    NgDirectiveInfo,
>)
    requires
        stats.wf(),
    ensures
        r@.len() == dirs@.len(),
        forall|i: int|
            0 <= i < dirs@.len() ==> (#[trigger] r@[i]).model().base == with_refs_base(
                dirs@[i].model().base,
                stats_view(stats.as_map()),
            ) && r@[i].model() == (NgDirectiveModel {
                base: r@[i].model().base,
                ..dirs@[i].model()
            }),
{
    let ghost sv = stats_view(stats.as_map());
    let mut out: Vec<NgDirectiveInfo> = Vec::new();
    let mut i: usize = 0;
    while i < dirs.len()
        invariant
            0 <= i <= dirs@.len(),
            out@.len() == i,
            forall|t: int|
                0 <= t < i ==> (#[trigger] out@[t]).model().base == with_refs_base(
                    dirs@[t].model().base,
                    sv,
                ) && out@[t].model() == (NgDirectiveModel {
                    base: out@[t].model().base,
                    ..dirs@[t].model()
                }),
        decreases dirs@.len() - i,
    {
        let d = &dirs[i];
        let key = NgDependencyAnalyzer::get_base_key(&d.base);
        let mut d2 = d.clone();
        match stats.get(key.as_str()) {
            Some(refs) => {
                d2.base.references = refs.clone();
            },
            None => {},
        }
        out.push(d2);
        i += 1;
    }
    out
}

/// Rebuild a pipe list with references attached.
#[verifier::loop_isolation(false)]
fn assign_pipe_refs(pipes: &Vec<NgPipeInfo>, stats: &StrMap<NgReferences>) -> (r: Vec<NgPipeInfo>)
    requires
        stats.wf(),
    ensures
        r@.len() == pipes@.len(),
        forall|i: int|
            0 <= i < pipes@.len() ==> (#[trigger] r@[i]).model().base == with_refs_base(
                pipes@[i].model().base,
                stats_view(stats.as_map()),
            ) && r@[i].model() == (NgPipeModel { base: r@[i].model().base, ..pipes@[i].model() }),
{
    let ghost sv = stats_view(stats.as_map());
    let mut out: Vec<NgPipeInfo> = Vec::new();
    let mut i: usize = 0;
    while i < pipes.len()
        invariant
            0 <= i <= pipes@.len(),
            out@.len() == i,
            forall|t: int|
                0 <= t < i ==> (#[trigger] out@[t]).model().base == with_refs_base(
                    pipes@[t].model().base,
                    sv,
                ) && out@[t].model() == (NgPipeModel {
                    base: out@[t].model().base,
                    ..pipes@[t].model()
                }),
        decreases pipes@.len() - i,
    {
        let p = &pipes[i];
        let key = NgDependencyAnalyzer::get_base_key(&p.base);
        let mut p2 = p.clone();
        match stats.get(key.as_str()) {
            Some(refs) => {
                p2.base.references = refs.clone();
            },
            None => {},
        }
        out.push(p2);
        i += 1;
    }
    out
}

/// Rebuild a module list with references attached.
#[verifier::loop_isolation(false)]
fn assign_module_refs(mods: &Vec<NgModuleInfo>, stats: &StrMap<NgReferences>) -> (r: Vec<
    NgModuleInfo,
>)
    requires
        stats.wf(),
    ensures
        r@.len() == mods@.len(),
        forall|i: int|
            0 <= i < mods@.len() ==> (#[trigger] r@[i]).model().base == with_refs_base(
                mods@[i].model().base,
                stats_view(stats.as_map()),
            ) && r@[i].model() == (crate::ng_models::NgModuleModel {
                base: r@[i].model().base,
                ..mods@[i].model()
            }),
{
    let ghost sv = stats_view(stats.as_map());
    let mut out: Vec<NgModuleInfo> = Vec::new();
    let mut i: usize = 0;
    while i < mods.len()
        invariant
            0 <= i <= mods@.len(),
            out@.len() == i,
            forall|t: int|
                0 <= t < i ==> (#[trigger] out@[t]).model().base == with_refs_base(
                    mods@[t].model().base,
                    sv,
                ) && out@[t].model() == (crate::ng_models::NgModuleModel {
                    base: out@[t].model().base,
                    ..mods@[t].model()
                }),
        decreases mods@.len() - i,
    {
        let m = &mods[i];
        let key = NgDependencyAnalyzer::get_base_key(&m.base);
        let mut m2 = m.clone();
        match stats.get(key.as_str()) {
            Some(refs) => {
                m2.base.references = refs.clone();
            },
            None => {},
        }
        out.push(m2);
        i += 1;
    }
    out
}

/// Rebuild a service list with references attached.
#[verifier::loop_isolation(false)]
fn assign_service_refs(servs: &Vec<NgServiceInfo>, stats: &StrMap<NgReferences>) -> (r: Vec<
    NgServiceInfo,
>)
    requires
        stats.wf(),
    ensures
        r@.len() == servs@.len(),
        forall|i: int|
            0 <= i < servs@.len() ==> (#[trigger] r@[i]).model().base == with_refs_base(
                servs@[i].model().base,
                stats_view(stats.as_map()),
            ) && r@[i].model() == (crate::ng_models::NgServiceModel {
                base: r@[i].model().base,
                ..servs@[i].model()
            }),
{
    let ghost sv = stats_view(stats.as_map());
    let mut out: Vec<NgServiceInfo> = Vec::new();
    let mut i: usize = 0;
    while i < servs.len()
        invariant
            0 <= i <= servs@.len(),
            out@.len() == i,
            forall|t: int|
                0 <= t < i ==> (#[trigger] out@[t]).model().base == with_refs_base(
                    servs@[t].model().base,
                    sv,
                ) && out@[t].model() == (crate::ng_models::NgServiceModel {
                    base: out@[t].model().base,
                    ..servs@[t].model()
                }),
        decreases servs@.len() - i,
    {
        let s = &servs[i];
        let key = NgDependencyAnalyzer::get_base_key(&s.base);
        let mut s2 = s.clone();
        match stats.get(key.as_str()) {
            Some(refs) => {
                s2.base.references = refs.clone();
            },
            None => {},
        }
        out.push(s2);
        i += 1;
    }
    out
}

/// Rebuild a plain-file list with references attached.
#[verifier::loop_isolation(false)]
fn assign_other_refs(others: &Vec<NgOtherInfo>, stats: &StrMap<NgReferences>) -> (r: Vec<
    NgOtherInfo,
>)
    requires
        stats.wf(),
    ensures
        r@.len() == others@.len(),
        forall|i: int|
            0 <= i < others@.len() ==> (#[trigger] r@[i]).model() == with_refs_base(
                others@[i].model(),
                stats_view(stats.as_map()),
            ),
{
    let ghost sv = stats_view(stats.as_map());
    let mut out: Vec<NgOtherInfo> = Vec::new();
    let mut i: usize = 0;
    while i < others.len()
        invariant
            0 <= i <= others@.len(),
            out@.len() == i,
            forall|t: int|
                0 <= t < i ==> (#[trigger] out@[t]).model() == with_refs_base(
                    others@[t].model(),
                    sv,
                ),
        decreases others@.len() - i,
    {
        let o = &others[i];
        let key = NgDependencyAnalyzer::get_base_key(&o.base);
        let mut o2 = o.clone();
        match stats.get(key.as_str()) {
            Some(refs) => {
                o2.base.references = refs.clone();
            },
            None => {},
        }
        out.push(o2);
        i += 1;
    }
    out
}

/// Rebuild a test-spec list with references attached.
#[verifier::loop_isolation(false)]
fn assign_spec_refs(specs: &Vec<NgTestSpecInfo>, stats: &StrMap<NgReferences>) -> (r: Vec<
    NgTestSpecInfo,
>)
    requires
        stats.wf(),
    ensures
        r@.len() == specs@.len(),
        forall|i: int|
            0 <= i < specs@.len() ==> (#[trigger] r@[i]).model() == with_refs_base(
                specs@[i].model(),
                stats_view(stats.as_map()),
            ),
{
    let ghost sv = stats_view(stats.as_map());
    let mut out: Vec<NgTestSpecInfo> = Vec::new();
    let mut i: usize = 0;
    while i < specs.len()
        invariant
            0 <= i <= specs@.len(),
            out@.len() == i,
            forall|t: int|
                0 <= t < i ==> (#[trigger] out@[t]).model() == with_refs_base(
                    specs@[t].model(),
                    sv,
                ),
        decreases specs@.len() - i,
    {
        let s = &specs[i];
        let key = NgDependencyAnalyzer::get_base_key(&s.base);
        let mut s2 = s.clone();
        match stats.get(key.as_str()) {
            Some(refs) => {
                s2.base.references = refs.clone();
            },
            None => {},
        }
        out.push(s2);
        i += 1;
    }
    out
}

/// The base records of plain files, in list order.
pub open spec fn bases_of_others(s: Seq<NgOtherInfo>) -> Seq<NgBaseModel> {
    s.map_values(|m: NgOtherInfo| m.base.model())
}

/// The base records of test specs, in list order.
pub open spec fn bases_of_specs(s: Seq<NgTestSpecInfo>) -> Seq<NgBaseModel> {
    s.map_values(|m: NgTestSpecInfo| m.base.model())
}

} // verus!
