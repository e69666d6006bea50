//! The scan of a whole batch whose fetches have all ended: one scan task per
//! target, in the order of the targets, and the report of their verdicts.

use crate::board::{
    blank_slots, is_complete, is_completion_order, law_completion_order_is_irrelevant, replay,
    verdicts_of,
};
use crate::fetch::FetchOutcome;
use crate::markers::{MarkerTable, Markers};
use crate::report::{verdict_views, ScanReport};
use crate::scan::{notice_text, notice_view, outcome_matches, scan, Verdict};
use vstd::prelude::*;

verus! {

/// A target with the outcome of its fetch.
#[derive(Clone, Debug, PartialEq, Eq)]
pub struct Fetched {
    pub target: String,
    pub outcome: FetchOutcome,
}

/// What the scan of a batch hands back: the report, and for each target, in
/// their order, the notice that its scan called for, if any.
#[derive(Debug, PartialEq, Eq)]
pub struct ScanOutput {
    pub report: ScanReport,
    pub notices: Vec<Option<String>>,
}

/// The verdicts that a batch comes to: for each target, in their order,
/// whether the outcome of its fetch matches the window.
pub open spec fn batch_verdicts(batch: Seq<Fetched>, max_days: nat, table: MarkerTable) -> Seq<
    (Seq<char>, bool),
> {
    Seq::new(
        batch.len(),
        |i: int| (batch[i].target@, outcome_matches(batch[i].outcome@, max_days, table)),
    )
}

/// The notices that a batch calls for, target by target.
pub open spec fn batch_notices(batch: Seq<Fetched>, warn_on_missing: bool) -> Seq<
    Option<Seq<char>>,
> {
    Seq::new(
        batch.len(),
        |i: int| notice_text(batch[i].target@, batch[i].outcome@, warn_on_missing),
    )
}

/// The texts of a list of optional notices.
pub open spec fn notice_views(notices: Seq<Option<String>>) -> Seq<Option<Seq<char>>> {
    notices.map_values(|notice: Option<String>| notice_view(notice))
}

/// The targets of a batch, in their order.
pub open spec fn batch_targets(batch: Seq<Fetched>) -> Seq<Seq<char>> {
    Seq::new(batch.len(), |i: int| batch[i].target@)
}

/// For each target of a batch, whether the outcome of its fetch matches.
pub open spec fn batch_matches(batch: Seq<Fetched>, max_days: nat, table: MarkerTable) -> Seq<
    bool,
> {
    Seq::new(batch.len(), |i: int| outcome_matches(batch[i].outcome@, max_days, table))
}

/// A board on which the tasks of a batch record their verdicts comes to the
/// verdicts of `scan_all`, in the order of the targets, in whichever order
/// the tasks end.
pub proof fn law_board_agrees_with_batch(
    batch: Seq<Fetched>,
    max_days: nat,
    table: MarkerTable,
    order: Seq<int>,
)
    requires
        is_completion_order(order, batch.len()),
    ensures
        is_complete(
            replay(
                blank_slots(batch_targets(batch)),
                order,
                batch_matches(batch, max_days, table),
            ),
        ),
        verdicts_of(
            replay(
                blank_slots(batch_targets(batch)),
                order,
                batch_matches(batch, max_days, table),
            ),
        ) == batch_verdicts(batch, max_days, table),
{
    let targets = batch_targets(batch);
    let matched = batch_matches(batch, max_days, table);
    law_completion_order_is_irrelevant(targets, matched, order);
    assert(Seq::new(targets.len(), |i: int| (targets[i], matched[i])) =~= batch_verdicts(
        batch,
        max_days,
        table,
    ));
}

/// Scans every target of `batch`. The report holds exactly one verdict for
/// each target, in the order of the batch, whatever the outcomes were: a
/// missing page and a failed fetch count as targets that did not match.
pub fn scan_all(batch: &Vec<Fetched>, max_days: u32, warn_on_missing: bool, markers: &Markers) -> (output:
    ScanOutput)
    ensures
        output.report@ == batch_verdicts(batch@, max_days as nat, markers@),
        output.report@.len() == batch@.len(),
        notice_views(output.notices@) == batch_notices(batch@, warn_on_missing),
        output.notices@.len() == batch@.len(),
{
    let mut verdicts: Vec<Verdict> = Vec::new();
    let mut notices: Vec<Option<String>> = Vec::new();
    let mut k: usize = 0;
    while k < batch.len()
        invariant
            k <= batch.len(),
            verdicts@.len() == k,
            notices@.len() == k,
            forall|i: int|
                0 <= i < k ==> (#[trigger] verdicts@[i])@ == batch_verdicts(
                    batch@,
                    max_days as nat,
                    markers@,
                )[i],
            forall|i: int|
                0 <= i < k ==> notice_view(#[trigger] notices@[i]) == batch_notices(
                    batch@,
                    warn_on_missing,
                )[i],
        decreases batch.len() - k,
    {
        let result = scan(
            batch[k].target.as_str(),
            &batch[k].outcome,
            max_days,
            warn_on_missing,
            markers,
        );
        verdicts.push(result.verdict);
        notices.push(result.notice);
        k += 1;
    }
    assert(verdict_views(verdicts@) =~= batch_verdicts(
        batch@,
        max_days as nat,
        markers@,
    ));
    assert(notice_views(notices@) =~= batch_notices(batch@, warn_on_missing));
    ScanOutput { report: ScanReport::from_verdicts(verdicts), notices }
}

} // verus!
