//! Timing measurements of a run, in milliseconds, with the summary
//! arithmetic the reports rely on.

use vstd::prelude::*;

verus! {

/// The total of the per-file analysis durations.
pub open spec fn spec_analysis_total(ts: Seq<(String, u64)>) -> nat
    decreases ts.len(),
{
    if ts.len() == 0 {
        0
    } else {
        (spec_analysis_total(ts.drop_last()) + ts.last().1) as nat
    }
}

/// Wall-clock measurements of one run.
pub struct TimingMetrics {
    pub workspace_load_time: u64,
    pub file_analysis_times: Vec<(String, u64)>,
    pub total_time: u64,
}

impl TimingMetrics {
    pub fn new() -> (r: Self)
        ensures
            r.workspace_load_time == 0,
            r.file_analysis_times@.len() == 0,
            r.total_time == 0,
    {
        TimingMetrics { workspace_load_time: 0, file_analysis_times: Vec::new(), total_time: 0 }
    }

    /// The per-file durations summed, saturated at the machine limit.
    pub fn total_analysis_time(&self) -> (r: u64)
        ensures
            spec_analysis_total(self.file_analysis_times@) <= u64::MAX ==> r
                == spec_analysis_total(self.file_analysis_times@),
    {
        let mut total: u64 = 0;
        let mut i: usize = 0;
        proof {
            assert(self.file_analysis_times@.take(0) =~= Seq::<(String, u64)>::empty());
        }
        while i < self.file_analysis_times.len()
            invariant
                0 <= i <= self.file_analysis_times@.len(),
                spec_analysis_total(self.file_analysis_times@.take(i as int)) <= u64::MAX
                    ==> total == spec_analysis_total(self.file_analysis_times@.take(i as int)),
                total <= spec_analysis_total(self.file_analysis_times@.take(i as int)),
            decreases self.file_analysis_times@.len() - i,
        {
            let d = self.file_analysis_times[i].1;
            proof {
                assert(self.file_analysis_times@.take(i as int + 1).drop_last()
                    =~= self.file_analysis_times@.take(i as int));
                assert(self.file_analysis_times@.take(i as int + 1).last()
                    == self.file_analysis_times@[i as int]);
            }
            if total <= u64::MAX - d {
                total = total + d;
            } else {
                total = u64::MAX;
            }
            i += 1;
        }
        proof {
            assert(self.file_analysis_times@.take(self.file_analysis_times@.len() as int)
                =~= self.file_analysis_times@);
        }
        total
    }

    /// The average per-file duration, over the summed total.
    pub fn average_analysis_time(&self) -> (r: u64)
        requires
            self.file_analysis_times@.len() > 0,
        ensures
            spec_analysis_total(self.file_analysis_times@) <= u64::MAX ==> r
                == spec_analysis_total(self.file_analysis_times@) / self.file_analysis_times@.len(),
    {
        let total = self.total_analysis_time();
        let n = self.file_analysis_times.len();
        total / (n as u64)
    }
}

} // verus!
