//! The per-run analysis result: every element found, by kind, with the
//! lookup maps built from them. Results merge associatively and, as
//! multisets of elements, commutatively, so chunk grouping and order never
//! change the final content.

use vstd::prelude::*;

use crate::ng_models::{
    NgComponentInfo, NgDirectiveInfo, NgElement, NgModuleInfo, NgOtherInfo, NgPipeInfo,
    NgServiceInfo, NgTestSpecInfo,
};
use crate::strmap::StrMap;
use vstd::multiset::Multiset;
use vstd::seq_lib::lemma_multiset_commutative;

verus! {

/// Everything one analysis run (or one chunk of it) found.
pub struct NgAnalysisResults {
    pub base_path: String,
    pub components: Vec<NgComponentInfo>,
    pub directives: Vec<NgDirectiveInfo>,
    pub modules: Vec<NgModuleInfo>,
    pub others: Vec<NgOtherInfo>,
    pub pipes: Vec<NgPipeInfo>,
    pub services: Vec<NgServiceInfo>,
    pub test_specs: Vec<NgTestSpecInfo>,
    pub component_selector_map: StrMap<NgComponentInfo>,
    pub directive_selector_map: StrMap<NgDirectiveInfo>,
    pub pipe_selector_map: StrMap<NgPipeInfo>,
    pub path_map: StrMap<NgElement>,
}

impl NgAnalysisResults {
    /// No elements: the identity of `extend`.
    pub fn new() -> (r: Self)
        ensures
            r.components@.len() == 0,
            r.directives@.len() == 0,
            r.modules@.len() == 0,
            r.others@.len() == 0,
            r.pipes@.len() == 0,
            r.services@.len() == 0,
            r.test_specs@.len() == 0,
            r.component_selector_map.wf(),
            r.directive_selector_map.wf(),
            r.pipe_selector_map.wf(),
            r.path_map.wf(),
            r.component_selector_map.as_map() == Map::<Seq<char>, NgComponentInfo>::empty(),
            r.directive_selector_map.as_map() == Map::<Seq<char>, NgDirectiveInfo>::empty(),
            r.pipe_selector_map.as_map() == Map::<Seq<char>, NgPipeInfo>::empty(),
            r.path_map.as_map() == Map::<Seq<char>, NgElement>::empty(),
    {
        NgAnalysisResults {
            base_path: String::new(),
            components: Vec::new(),
            directives: Vec::new(),
            modules: Vec::new(),
            others: Vec::new(),
            pipes: Vec::new(),
            services: Vec::new(),
            test_specs: Vec::new(),
            component_selector_map: StrMap::new(),
            directive_selector_map: StrMap::new(),
            pipe_selector_map: StrMap::new(),
            path_map: StrMap::new(),
        }
    }

    /// Merge another result into this one: element lists are concatenated
    /// kind by kind; this result's lookup maps and base path are kept.
    pub fn extend(&mut self, other: Self)
        ensures
            final(self).components@ == old(self).components@ + other.components@,
            final(self).directives@ == old(self).directives@ + other.directives@,
            final(self).modules@ == old(self).modules@ + other.modules@,
            final(self).others@ == old(self).others@ + other.others@,
            final(self).pipes@ == old(self).pipes@ + other.pipes@,
            final(self).services@ == old(self).services@ + other.services@,
            final(self).test_specs@ == old(self).test_specs@ + other.test_specs@,
            final(self).base_path == old(self).base_path,
            final(self).component_selector_map == old(self).component_selector_map,
            final(self).directive_selector_map == old(self).directive_selector_map,
            final(self).pipe_selector_map == old(self).pipe_selector_map,
            final(self).path_map == old(self).path_map,
    {
        let mut o = other;
        self.components.append(&mut o.components);
        self.directives.append(&mut o.directives);
        self.modules.append(&mut o.modules);
        self.others.append(&mut o.others);
        self.pipes.append(&mut o.pipes);
        self.services.append(&mut o.services);
        self.test_specs.append(&mut o.test_specs);
    }
}

/// The sole contract the pipeline asks of a result type: an identity
/// value and a merge under which the held content adds up as a multiset.
/// Any implementor's merge is thereby associative and commutative in
/// content, whatever the chunking or ordering.
pub trait AnalysisCollector: Sized {
    /// The items held, as an unordered collection of their keys.
    spec fn content(&self) -> Multiset<Seq<char>>;

    /// The identity unit: no items.
    fn unit() -> (r: Self)
        ensures
            r.content() == Multiset::<Seq<char>>::empty(),
    ;

    /// Merge another unit in: contents add.
    fn combine(&mut self, other: Self)
        ensures
            final(self).content() == old(self).content().add(other.content()),
    ;
}

/// The keys of every element a result holds, one per element.
pub open spec fn result_keys(r: &NgAnalysisResults) -> Seq<Seq<char>> {
    r.components@.map_values(|c: NgComponentInfo| crate::ng_dependency::spec_base_key(c.base.model()))
        + r.directives@.map_values(
        |d: NgDirectiveInfo| crate::ng_dependency::spec_base_key(d.base.model()),
    ) + r.modules@.map_values(
        |m: NgModuleInfo| crate::ng_dependency::spec_base_key(m.base.model()),
    ) + r.others@.map_values(
        |o: NgOtherInfo| crate::ng_dependency::spec_base_key(o.base.model()),
    ) + r.pipes@.map_values(
        |p: NgPipeInfo| crate::ng_dependency::spec_base_key(p.base.model()),
    ) + r.services@.map_values(
        |s: NgServiceInfo| crate::ng_dependency::spec_base_key(s.base.model()),
    ) + r.test_specs@.map_values(
        |t: NgTestSpecInfo| crate::ng_dependency::spec_base_key(t.base.model()),
    )
}

impl AnalysisCollector for NgAnalysisResults {
    open spec fn content(&self) -> Multiset<Seq<char>> {
        result_keys(self).to_multiset()
    }

    fn unit() -> (r: Self)
        ensures
            r.content() == Multiset::<Seq<char>>::empty(),
    {
        let r = NgAnalysisResults::new();
        proof {
            assert(result_keys(&r) =~= Seq::<Seq<char>>::empty());
            Seq::<Seq<char>>::empty().to_multiset_ensures();
            assert(result_keys(&r).to_multiset().len() == 0);
            assert(result_keys(&r).to_multiset() =~= Multiset::<Seq<char>>::empty());
        }
        r
    }

    fn combine(&mut self, other: Self)
        ensures
            final(self).content() == old(self).content().add(other.content()),
    {
        let ghost a = *self;
        let ghost b = other;
        self.extend(other);
        proof {
            broadcast use vstd::multiset::group_multiset_axioms;

            lemma_keys_extend(a, b, *self);
            lemma_multiset_commutative(result_keys(&a), result_keys(&b));
        }
    }
}

/// The keys of a merged result are the two key lists, one after the
/// other, reordered only between element kinds.
proof fn lemma_keys_extend(a: NgAnalysisResults, b: NgAnalysisResults, m: NgAnalysisResults)
    requires
        m.components@ == a.components@ + b.components@,
        m.directives@ == a.directives@ + b.directives@,
        m.modules@ == a.modules@ + b.modules@,
        m.others@ == a.others@ + b.others@,
        m.pipes@ == a.pipes@ + b.pipes@,
        m.services@ == a.services@ + b.services@,
        m.test_specs@ == a.test_specs@ + b.test_specs@,
    ensures
        result_keys(&m).to_multiset() == result_keys(&a).to_multiset().add(
            result_keys(&b).to_multiset(),
        ),
{
    broadcast use vstd::multiset::group_multiset_axioms;

    let kc_a = a.components@.map_values(
        |c: NgComponentInfo| crate::ng_dependency::spec_base_key(c.base.model()),
    );
    let kc_b = b.components@.map_values(
        |c: NgComponentInfo| crate::ng_dependency::spec_base_key(c.base.model()),
    );
    let kd_a = a.directives@.map_values(
        |d: NgDirectiveInfo| crate::ng_dependency::spec_base_key(d.base.model()),
    );
    let kd_b = b.directives@.map_values(
        |d: NgDirectiveInfo| crate::ng_dependency::spec_base_key(d.base.model()),
    );
    let km_a = a.modules@.map_values(
        |x: NgModuleInfo| crate::ng_dependency::spec_base_key(x.base.model()),
    );
    let km_b = b.modules@.map_values(
        |x: NgModuleInfo| crate::ng_dependency::spec_base_key(x.base.model()),
    );
    let ko_a = a.others@.map_values(
        |x: NgOtherInfo| crate::ng_dependency::spec_base_key(x.base.model()),
    );
    let ko_b = b.others@.map_values(
        |x: NgOtherInfo| crate::ng_dependency::spec_base_key(x.base.model()),
    );
    let kp_a = a.pipes@.map_values(
        |x: NgPipeInfo| crate::ng_dependency::spec_base_key(x.base.model()),
    );
    let kp_b = b.pipes@.map_values(
        |x: NgPipeInfo| crate::ng_dependency::spec_base_key(x.base.model()),
    );
    let ks_a = a.services@.map_values(
        |x: NgServiceInfo| crate::ng_dependency::spec_base_key(x.base.model()),
    );
    let ks_b = b.services@.map_values(
        |x: NgServiceInfo| crate::ng_dependency::spec_base_key(x.base.model()),
    );
    let kt_a = a.test_specs@.map_values(
        |x: NgTestSpecInfo| crate::ng_dependency::spec_base_key(x.base.model()),
    );
    let kt_b = b.test_specs@.map_values(
        |x: NgTestSpecInfo| crate::ng_dependency::spec_base_key(x.base.model()),
    );
    let l1 = kc_a + kc_b;
    let l2 = kd_a + kd_b;
    let l3 = km_a + km_b;
    let l4 = ko_a + ko_b;
    let l5 = kp_a + kp_b;
    let l6 = ks_a + ks_b;
    let l7 = kt_a + kt_b;
    assert(result_keys(&m) =~= l1 + l2 + l3 + l4 + l5 + l6 + l7);
    lemma_multiset_commutative(kc_a, kc_b);
    lemma_multiset_commutative(kd_a, kd_b);
    lemma_multiset_commutative(km_a, km_b);
    lemma_multiset_commutative(ko_a, ko_b);
    lemma_multiset_commutative(kp_a, kp_b);
    lemma_multiset_commutative(ks_a, ks_b);
    lemma_multiset_commutative(kt_a, kt_b);
    lemma_multiset_commutative(l1, l2);
    lemma_multiset_commutative(l1 + l2, l3);
    lemma_multiset_commutative(l1 + l2 + l3, l4);
    lemma_multiset_commutative(l1 + l2 + l3 + l4, l5);
    lemma_multiset_commutative(l1 + l2 + l3 + l4 + l5, l6);
    lemma_multiset_commutative(l1 + l2 + l3 + l4 + l5 + l6, l7);
    lemma_multiset_commutative(kc_a, kd_a);
    lemma_multiset_commutative(kc_a + kd_a, km_a);
    lemma_multiset_commutative(kc_a + kd_a + km_a, ko_a);
    lemma_multiset_commutative(kc_a + kd_a + km_a + ko_a, kp_a);
    lemma_multiset_commutative(kc_a + kd_a + km_a + ko_a + kp_a, ks_a);
    lemma_multiset_commutative(kc_a + kd_a + km_a + ko_a + kp_a + ks_a, kt_a);
    lemma_multiset_commutative(kc_b, kd_b);
    lemma_multiset_commutative(kc_b + kd_b, km_b);
    lemma_multiset_commutative(kc_b + kd_b + km_b, ko_b);
    lemma_multiset_commutative(kc_b + kd_b + km_b + ko_b, kp_b);
    lemma_multiset_commutative(kc_b + kd_b + km_b + ko_b + kp_b, ks_b);
    lemma_multiset_commutative(kc_b + kd_b + km_b + ko_b + kp_b + ks_b, kt_b);
    assert(result_keys(&a) =~= kc_a + kd_a + km_a + ko_a + kp_a + ks_a + kt_a);
    assert(result_keys(&b) =~= kc_b + kd_b + km_b + ko_b + kp_b + ks_b + kt_b);
    assert(result_keys(&m).to_multiset() =~= result_keys(&a).to_multiset().add(
        result_keys(&b).to_multiset(),
    ));
}

/// Any collector's merge is commutative in content: merging two units in
/// either order holds the same items.
pub proof fn lemma_collector_merge_commutative<T: AnalysisCollector>(a: &T, b: &T)
    ensures
        a.content().add(b.content()) == b.content().add(a.content()),
{
    broadcast use vstd::multiset::group_multiset_axioms;

    assert(a.content().add(b.content()) =~= b.content().add(a.content()));
}

/// Any collector's merge is associative in content: grouping three units
/// either way holds the same items.
pub proof fn lemma_collector_merge_associative<T: AnalysisCollector>(a: &T, b: &T, c: &T)
    ensures
        a.content().add(b.content()).add(c.content()) == a.content().add(
            b.content().add(c.content()),
        ),
{
    broadcast use vstd::multiset::group_multiset_axioms;

    assert(a.content().add(b.content()).add(c.content()) =~= a.content().add(
        b.content().add(c.content()),
    ));
}

/// Merging element lists is associative: grouping chunk results either way
/// yields the very same sequences.
pub proof fn lemma_merge_associative<T>(a: Seq<T>, b: Seq<T>, c: Seq<T>)
    ensures
        (a + b) + c == a + (b + c),
{
    assert((a + b) + c =~= a + (b + c));
}

/// Merging element lists is commutative up to order: either order holds
/// the same elements, as multisets.
pub proof fn lemma_merge_commutative<T>(a: Seq<T>, b: Seq<T>)
    ensures
        (a + b).to_multiset() == (b + a).to_multiset(),
{
    broadcast use vstd::multiset::group_multiset_axioms;

    lemma_multiset_commutative(a, b);
    lemma_multiset_commutative(b, a);
    assert(a.to_multiset().add(b.to_multiset()) =~= b.to_multiset().add(a.to_multiset()));
}

/// The empty list is the identity of merging.
pub proof fn lemma_merge_identity<T>(a: Seq<T>)
    ensures
        a + Seq::<T>::empty() == a,
        Seq::<T>::empty() + a == a,
{
    assert(a + Seq::<T>::empty() =~= a);
    assert(Seq::<T>::empty() + a =~= a);
}

} // verus!
