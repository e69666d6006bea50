//! The result of a scan: the verdicts in the order of the targets, with the
//! number of targets and the number of those that matched.

use crate::scan::Verdict;
use crate::text::string_views;
use vstd::prelude::*;

verus! {

/// The verdicts of a list, each as the pair of its target and its flag.
pub open spec fn verdict_views(verdicts: Seq<Verdict>) -> Seq<(Seq<char>, bool)> {
    verdicts.map_values(|verdict: Verdict| verdict@)
}

/// The targets of the verdicts that matched, in the order of the verdicts.
pub open spec fn matched_targets(verdicts: Seq<(Seq<char>, bool)>) -> Seq<Seq<char>> {
    verdicts.filter(|verdict: (Seq<char>, bool)| verdict.1).map_values(
        |verdict: (Seq<char>, bool)| verdict.0,
    )
}

/// Adding a verdict at the end adds its target to the matched ones if it
/// matched, and nothing otherwise.
pub proof fn lemma_matched_targets_push(verdicts: Seq<(Seq<char>, bool)>, verdict: (Seq<char>, bool))
    ensures
        matched_targets(verdicts.push(verdict)) == if verdict.1 {
            matched_targets(verdicts).push(verdict.0)
        } else {
            matched_targets(verdicts)
        },
{
    reveal(Seq::filter);
    assert(verdicts.push(verdict).drop_last() == verdicts);
    if verdict.1 {
        assert(matched_targets(verdicts.push(verdict)) =~= matched_targets(verdicts).push(
            verdict.0,
        ));
    }
}

/// No more targets matched than there are verdicts.
pub proof fn lemma_matched_targets_bound(verdicts: Seq<(Seq<char>, bool)>)
    ensures
        matched_targets(verdicts).len() <= verdicts.len(),
{
    verdicts.lemma_filter_len(|verdict: (Seq<char>, bool)| verdict.1);
}

/// The verdicts of a scan with their summary.
#[derive(Debug, PartialEq, Eq)]
pub struct ScanReport {
    verdicts: Vec<Verdict>,
    matched: usize,
}

impl View for ScanReport {
    type V = Seq<(Seq<char>, bool)>;

    closed spec fn view(&self) -> Seq<(Seq<char>, bool)> {
        verdict_views(self.verdicts@)
    }
}

impl ScanReport {
    #[verifier::type_invariant]
    spec fn summary_is_exact(&self) -> bool {
        self.matched == matched_targets(verdict_views(self.verdicts@)).len()
    }

    /// Makes the report of `verdicts`, which stand in the order of the
    /// targets.
    pub fn from_verdicts(verdicts: Vec<Verdict>) -> (report: ScanReport)
        ensures
            report@ == verdict_views(verdicts@),
    {
        let mut matched: usize = 0;
        let mut k: usize = 0;
        proof {
            assert(verdict_views(verdicts@).take(0) =~= Seq::empty());
            reveal(Seq::filter);
        }
        while k < verdicts.len()
            invariant
                k <= verdicts.len(),
                matched <= k,
                matched == matched_targets(verdict_views(verdicts@).take(k as int)).len(),
            decreases verdicts.len() - k,
        {
            proof {
                let views = verdict_views(verdicts@);
                lemma_matched_targets_push(views.take(k as int), views[k as int]);
                lemma_matched_targets_bound(views.take(k as int));
                assert(views.take(k + 1) == views.take(k as int).push(views[k as int]));
            }
            if verdicts[k].matched {
                matched += 1;
            }
            k += 1;
        }
        assert(verdict_views(verdicts@).take(k as int) == verdict_views(verdicts@));
        ScanReport { verdicts, matched }
    }

    /// The verdicts, in the order of the targets.
    pub fn verdicts(&self) -> (verdicts: &Vec<Verdict>)
        ensures
            verdict_views(verdicts@) == self@,
    {
        &self.verdicts
    }

    /// The number of targets that were scanned.
    pub fn total_count(&self) -> (count: usize)
        ensures
            count == self@.len(),
    {
        self.verdicts.len()
    }

    /// The number of targets that matched.
    pub fn matched_count(&self) -> (count: usize)
        ensures
            count == matched_targets(self@).len(),
            count <= self@.len(),
    {
        proof {
            use_type_invariant(self);
            lemma_matched_targets_bound(self@);
        }
        self.matched
    }

    /// The targets that matched, in the order in which they were given.
    pub fn matched_targets(&self) -> (targets: Vec<String>)
        ensures
            string_views(targets@) == matched_targets(self@),
    {
        let mut targets: Vec<String> = Vec::new();
        let mut k: usize = 0;
        proof {
            assert(self@.take(0) =~= Seq::empty());
            reveal(Seq::filter);
            assert(string_views(targets@) =~= matched_targets(self@.take(0)));
        }
        while k < self.verdicts.len()
            invariant
                k <= self.verdicts.len(),
                string_views(targets@) == matched_targets(self@.take(k as int)),
            decreases self.verdicts.len() - k,
        {
            proof {
                lemma_matched_targets_push(self@.take(k as int), self@[k as int]);
                assert(self@.take(k + 1) == self@.take(k as int).push(self@[k as int]));
            }
            if self.verdicts[k].matched {
                let ghost before = targets@;
                targets.push(self.verdicts[k].target.clone());
                assert(string_views(targets@) =~= string_views(before).push(self@[k as int].0));
            }
            k += 1;
        }
        assert(self@.take(k as int) == self@);
        targets
    }
}

} // verus!
