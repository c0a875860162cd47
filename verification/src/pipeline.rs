//! The analysis pipeline's decisions: which enumerated paths are analyzed,
//! how they are partitioned into chunks, and how chunk results merge into
//! one final result. The walking of directories, the per-file extraction
//! and any parallel execution happen outside; merging is associative and
//! order-independent in content, so the grouping cannot change the result.

use vstd::prelude::*;

use crate::cache::ImportCache;
use crate::content_cache::CachedFileReader;
use crate::graph::ImportGraph;
use crate::ng_results::NgAnalysisResults;
use crate::paths::{is_node_modules, split_segments};
use crate::strutil::is_suffix;
use crate::ts_config::TSConfig;

verus! {

/// A path the pipeline analyzes: a TypeScript source outside any
/// dependency directory. A file whose whole name is `.ts` carries no
/// stem and is not a source file.
pub open spec fn spec_keeps_path(p: Seq<char>) -> bool {
    &&& !split_segments(p).contains("node_modules"@)
    &&& is_suffix(".ts"@, p)
    &&& p != ".ts"@
    &&& !is_suffix("/.ts"@, p)
}

/// The kept paths, in order.
pub open spec fn spec_filter_paths(paths: Seq<String>) -> Seq<String>
    decreases paths.len(),
{
    if paths.len() == 0 {
        Seq::empty()
    } else {
        let rest = spec_filter_paths(paths.drop_last());
        if spec_keeps_path(paths.last()@) {
            rest.push(paths.last())
        } else {
            rest
        }
    }
}

/// The chunks flattened back into one list.
pub open spec fn spec_concat_chunks(chunks: Seq<Vec<String>>) -> Seq<String>
    decreases chunks.len(),
{
    if chunks.len() == 0 {
        Seq::empty()
    } else {
        spec_concat_chunks(chunks.drop_last()) + chunks.last()@
    }
}

/// Component lists of a sequence of results, concatenated in order.
pub open spec fn spec_concat_components(rs: Seq<NgAnalysisResults>) -> Seq<
    crate::ng_models::NgComponentInfo,
>
    decreases rs.len(),
{
    if rs.len() == 0 {
        Seq::empty()
    } else {
        spec_concat_components(rs.drop_last()) + rs.last().components@
    }
}

pub open spec fn spec_concat_directives(rs: Seq<NgAnalysisResults>) -> Seq<
    crate::ng_models::NgDirectiveInfo,
>
    decreases rs.len(),
{
    if rs.len() == 0 {
        Seq::empty()
    } else {
        spec_concat_directives(rs.drop_last()) + rs.last().directives@
    }
}

pub open spec fn spec_concat_pipes(rs: Seq<NgAnalysisResults>) -> Seq<
    crate::ng_models::NgPipeInfo,
>
    decreases rs.len(),
{
    if rs.len() == 0 {
        Seq::empty()
    } else {
        spec_concat_pipes(rs.drop_last()) + rs.last().pipes@
    }
}

pub open spec fn spec_concat_modules(rs: Seq<NgAnalysisResults>) -> Seq<
    crate::ng_models::NgModuleInfo,
>
    decreases rs.len(),
{
    if rs.len() == 0 {
        Seq::empty()
    } else {
        spec_concat_modules(rs.drop_last()) + rs.last().modules@
    }
}

pub open spec fn spec_concat_services(rs: Seq<NgAnalysisResults>) -> Seq<
    crate::ng_models::NgServiceInfo,
>
    decreases rs.len(),
{
    if rs.len() == 0 {
        Seq::empty()
    } else {
        spec_concat_services(rs.drop_last()) + rs.last().services@
    }
}

pub open spec fn spec_concat_others(rs: Seq<NgAnalysisResults>) -> Seq<
    crate::ng_models::NgOtherInfo,
>
    decreases rs.len(),
{
    if rs.len() == 0 {
        Seq::empty()
    } else {
        spec_concat_others(rs.drop_last()) + rs.last().others@
    }
}

pub open spec fn spec_concat_specs(rs: Seq<NgAnalysisResults>) -> Seq<
    crate::ng_models::NgTestSpecInfo,
>
    decreases rs.len(),
{
    if rs.len() == 0 {
        Seq::empty()
    } else {
        spec_concat_specs(rs.drop_last()) + rs.last().test_specs@
    }
}

/// One project's analysis state: its identity and configuration together
/// with the shared stores every worker uses.
pub struct ProjectProcessor {
    pub base_path: String,
    pub project_path: String,
    pub project_name: String,
    pub project_ts_config: TSConfig,
    pub shared_cache: ImportCache,
    pub file_reader: CachedFileReader,
    pub import_graph: ImportGraph,
}

impl ProjectProcessor {
    pub fn new(
        base_path: String,
        project_path: String,
        project_name: String,
        project_ts_config: TSConfig,
        shared_cache: ImportCache,
        shared_file_reader: CachedFileReader,
        import_graph: ImportGraph,
    ) -> (r: Self)
        ensures
            r.base_path == base_path,
            r.project_path == project_path,
            r.project_name == project_name,
            r.shared_cache == shared_cache,
            r.file_reader == shared_file_reader,
            r.import_graph == import_graph,
    {
        ProjectProcessor {
            base_path,
            project_path,
            project_name,
            project_ts_config,
            shared_cache,
            file_reader: shared_file_reader,
            import_graph,
        }
    }

    /// Mark dependency directories as excluded; `collect_paths` always
    /// applies this filter.
    pub fn filter_node_modules(self) -> (r: Self)
        ensures
            r == self,
    {
        self
    }

    /// Mark the analysis as restricted to TypeScript sources;
    /// `collect_paths` always applies this filter.
    pub fn filter_ts_files(self) -> (r: Self)
        ensures
            r == self,
    {
        self
    }

    /// Keep, in order, the enumerated paths the pipeline analyzes: those
    /// outside dependency directories that end in `.ts`.
    #[verifier::loop_isolation(false)]
    pub fn collect_paths(&self, walked: Vec<String>) -> (r: Vec<String>)
        ensures
            r@ == spec_filter_paths(walked@),
    {
        let mut out: Vec<String> = Vec::new();
        let mut i: usize = 0;
        proof {
            assert(walked@.take(0) =~= Seq::<String>::empty());
            assert(out@ =~= spec_filter_paths(walked@.take(0)));
        }
        while i < walked.len()
            invariant
                0 <= i <= walked@.len(),
                out@ == spec_filter_paths(walked@.take(i as int)),
            decreases walked@.len() - i,
        {
            let p = &walked[i];
            proof {
                assert(walked@.take(i as int + 1).drop_last() =~= walked@.take(i as int));
                assert(walked@.take(i as int + 1).last() == walked@[i as int]);
            }
            if !is_node_modules(p.as_str()) && crate::strutil::ends_with(p.as_str(), ".ts")
                && !crate::strutil::str_eq(p.as_str(), ".ts")
                && !crate::strutil::ends_with(p.as_str(), "/.ts") {
                out.push(p.clone());
            }
            i += 1;
        }
        proof {
            assert(walked@.take(walked@.len() as int) =~= walked@);
        }
        out
    }

    /// Partition paths into chunks of at most `chunk_size`, all full but
    /// possibly the last; flattening the chunks restores the input.
    #[verifier::loop_isolation(false)]
    pub fn chunk_paths(&self, paths: Vec<String>, chunk_size: usize) -> (r: Vec<Vec<String>>)
        requires
            chunk_size > 0,
        ensures
            spec_concat_chunks(r@) == paths@,
            forall|i: int| 0 <= i < r@.len() ==> (#[trigger] r@[i])@.len() <= chunk_size,
            forall|i: int| 0 <= i < r@.len() - 1 ==> (#[trigger] r@[i])@.len() == chunk_size,
    {
        let mut chunks: Vec<Vec<String>> = Vec::new();
        let mut cur: Vec<String> = Vec::new();
        let mut i: usize = 0;
        proof {
            assert(spec_concat_chunks(chunks@) =~= Seq::<String>::empty());
            assert(paths@.take(0) =~= Seq::<String>::empty());
        }
        while i < paths.len()
            invariant
                0 <= i <= paths@.len(),
                cur@.len() < chunk_size,
                spec_concat_chunks(chunks@) + cur@ == paths@.take(i as int),
                forall|t: int| 0 <= t < chunks@.len() ==> (#[trigger] chunks@[t])@.len()
                    == chunk_size,
            decreases paths@.len() - i,
        {
            let ghost prev_chunks = chunks@;
            let ghost prev_cur = cur@;
            cur.push(paths[i].clone());
            proof {
                assert(paths@.take(i as int + 1) =~= paths@.take(i as int) + seq![
                    paths@[i as int],
                ]);
                assert(spec_concat_chunks(chunks@) + cur@ =~= paths@.take(i as int + 1));
            }
            if cur.len() == chunk_size {
                let mut finished: Vec<String> = Vec::new();
                core::mem::swap(&mut finished, &mut cur);
                let ghost fview = finished@;
                chunks.push(finished);
                proof {
                    assert(chunks@.drop_last() =~= prev_chunks);
                    assert(chunks@.last()@ == fview);
                    assert(spec_concat_chunks(chunks@) =~= spec_concat_chunks(prev_chunks)
                        + fview);
                    assert(spec_concat_chunks(chunks@) + cur@ =~= paths@.take(i as int + 1));
                }
            }
            i += 1;
        }
        proof {
            assert(paths@.take(paths@.len() as int) =~= paths@);
        }
        if cur.len() > 0 {
            let ghost prev_chunks = chunks@;
            let ghost cview = cur@;
            chunks.push(cur);
            proof {
                assert(chunks@.drop_last() =~= prev_chunks);
                assert(spec_concat_chunks(chunks@) =~= spec_concat_chunks(prev_chunks) + cview);
            }
        } else {
            proof {
                assert(spec_concat_chunks(chunks@) + cur@ =~= spec_concat_chunks(chunks@));
            }
        }
        chunks
    }

    /// Fold chunk results into one, in order; the merged element lists
    /// are the chunk lists concatenated.
    #[verifier::loop_isolation(false)]
    pub fn merge_chunk_results(&self, chunk_results: Vec<NgAnalysisResults>, results: &mut NgAnalysisResults)
        ensures
            final(results).components@ == old(results).components@ + spec_concat_components(
                chunk_results@,
            ),
            final(results).directives@ == old(results).directives@ + spec_concat_directives(
                chunk_results@,
            ),
            final(results).pipes@ == old(results).pipes@ + spec_concat_pipes(chunk_results@),
            final(results).modules@ == old(results).modules@ + spec_concat_modules(
                chunk_results@,
            ),
            final(results).services@ == old(results).services@ + spec_concat_services(
                chunk_results@,
            ),
            final(results).others@ == old(results).others@ + spec_concat_others(chunk_results@),
            final(results).test_specs@ == old(results).test_specs@ + spec_concat_specs(
                chunk_results@,
            ),
            final(results).base_path == old(results).base_path,
    {
        let ghost all = chunk_results@;
        let mut remaining = chunk_results;
        let ghost mut taken: int = 0;
        proof {
            assert(all.take(0) =~= Seq::<NgAnalysisResults>::empty());
            assert(all.skip(0) =~= all);
            assert(old(results).components@ + spec_concat_components(all.take(0))
                =~= old(results).components@);
            assert(old(results).directives@ + spec_concat_directives(all.take(0))
                =~= old(results).directives@);
            assert(old(results).pipes@ + spec_concat_pipes(all.take(0)) =~= old(results).pipes@);
            assert(old(results).modules@ + spec_concat_modules(all.take(0))
                =~= old(results).modules@);
            assert(old(results).services@ + spec_concat_services(all.take(0))
                =~= old(results).services@);
            assert(old(results).others@ + spec_concat_others(all.take(0))
                =~= old(results).others@);
            assert(old(results).test_specs@ + spec_concat_specs(all.take(0))
                =~= old(results).test_specs@);
        }
        while remaining.len() > 0
            invariant
                0 <= taken <= all.len(),
                remaining@ == all.skip(taken),
                results.components@ == old(results).components@ + spec_concat_components(
                    all.take(taken),
                ),
                results.directives@ == old(results).directives@ + spec_concat_directives(
                    all.take(taken),
                ),
                results.pipes@ == old(results).pipes@ + spec_concat_pipes(all.take(taken)),
                results.modules@ == old(results).modules@ + spec_concat_modules(all.take(taken)),
                results.services@ == old(results).services@ + spec_concat_services(
                    all.take(taken),
                ),
                results.others@ == old(results).others@ + spec_concat_others(all.take(taken)),
                results.test_specs@ == old(results).test_specs@ + spec_concat_specs(
                    all.take(taken),
                ),
                results.base_path == old(results).base_path,
            decreases remaining@.len(),
        {
            let ghost before_components = results.components@;
            let ghost before_directives = results.directives@;
            let ghost before_pipes = results.pipes@;
            let ghost before_modules = results.modules@;
            let ghost before_services = results.services@;
            let ghost before_others = results.others@;
            let ghost before_specs = results.test_specs@;
            let first = remaining.remove(0);
            proof {
                assert(first == all[taken]);
                assert(remaining@ =~= all.skip(taken + 1));
            }
            results.extend(first);
            proof {
                taken = taken + 1;
                assert(all.take(taken).drop_last() =~= all.take(taken - 1));
                assert(all.take(taken).last() == all[taken - 1]);
                assert(results.components@ =~= old(results).components@ + spec_concat_components(
                    all.take(taken),
                ));
                assert(results.directives@ =~= old(results).directives@ + spec_concat_directives(
                    all.take(taken),
                ));
                assert(results.pipes@ =~= old(results).pipes@ + spec_concat_pipes(
                    all.take(taken),
                ));
                assert(results.modules@ =~= old(results).modules@ + spec_concat_modules(
                    all.take(taken),
                ));
                assert(results.services@ =~= old(results).services@ + spec_concat_services(
                    all.take(taken),
                ));
                assert(results.others@ =~= old(results).others@ + spec_concat_others(
                    all.take(taken),
                ));
                assert(results.test_specs@ =~= old(results).test_specs@ + spec_concat_specs(
                    all.take(taken),
                ));
            }
        }
        proof {
            assert(all.skip(taken).len() == 0);
            assert(taken == all.len());
            assert(all.take(taken) =~= all);
        }
    }
}

} // verus!
