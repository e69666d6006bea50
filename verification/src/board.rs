//! The slot board of a scan: one slot per target, in the order of the
//! targets. Scan tasks end in any order; each verdict goes into the slot of
//! its own target, every slot is filled once, and the report exists when all
//! slots are filled. The report therefore follows the order of the targets
//! and never the order in which the tasks ended.

use crate::report::{verdict_views, ScanReport};
use crate::scan::Verdict;
use crate::text::string_views;
use vstd::prelude::*;

verus! {

/// The mathematical form of a board: for each target, its text and the flag
/// of its verdict once that was recorded.
pub type Slots = Seq<(Seq<char>, Option<bool>)>;

/// The board of a scan that has just begun: every slot is empty.
pub open spec fn blank_slots(targets: Seq<Seq<char>>) -> Slots {
    targets.map_values(|target: Seq<char>| (target, None::<bool>))
}

/// The board of a scan in which target `i` came to the verdict `matched[i]`.
pub open spec fn filled_slots(targets: Seq<Seq<char>>, matched: Seq<bool>) -> Slots {
    Seq::new(targets.len(), |i: int| (targets[i], Some(matched[i])))
}

/// Slot `index` exists and is empty.
pub open spec fn is_open(slots: Slots, index: int) -> bool {
    0 <= index < slots.len() && slots[index].1 is None
}

/// The board after a verdict was handed in for slot `index`. Only an empty
/// slot takes a verdict; anything else leaves the board as it is.
pub open spec fn recorded(slots: Slots, index: int, matched: bool) -> Slots {
    if is_open(slots, index) {
        slots.update(index, (slots[index].0, Some(matched)))
    } else {
        slots
    }
}

/// Every slot is filled.
pub open spec fn is_complete(slots: Slots) -> bool {
    forall|i: int| 0 <= i < slots.len() ==> (#[trigger] slots[i]).1 is Some
}

/// The verdicts of a complete board, in the order of the targets.
pub open spec fn verdicts_of(slots: Slots) -> Seq<(Seq<char>, bool)> {
    Seq::new(slots.len(), |i: int| (slots[i].0, slots[i].1 == Some(true)))
}

/// The board after the tasks ended in the order `order`: the task of target
/// `order[0]` first. Target `i` comes to the verdict `matched[i]`.
pub open spec fn replay(slots: Slots, order: Seq<int>, matched: Seq<bool>) -> Slots
    decreases order.len(),
{
    if order.len() == 0 {
        slots
    } else {
        recorded(replay(slots, order.drop_last(), matched), order.last(), matched[order.last()])
    }
}

/// `order` names each of `count` tasks once.
pub open spec fn is_completion_order(order: Seq<int>, count: nat) -> bool {
    &&& order.len() == count
    &&& forall|k: int| 0 <= k < order.len() ==> 0 <= #[trigger] order[k] < count
    &&& order.no_duplicates()
}

/// A list that names each of `count` tasks once names every one of them.
pub proof fn lemma_completion_order_names_all(order: Seq<int>, count: nat, index: int)
    requires
        is_completion_order(order, count),
        0 <= index < count,
    ensures
        order.contains(index),
{
    let named = order.to_set();
    let all = vstd::set_lib::set_int_range(0, count as int);
    order.unique_seq_to_set();
    vstd::set_lib::lemma_int_range(0, count as int);
    assert(named.subset_of(all)) by {
        assert forall|i: int| named.contains(i) implies all.contains(i) by {
            let k = choose|k: int| 0 <= k < order.len() && order[k] == i;
            assert(0 <= order[k] < count);
        }
    }
    vstd::set_lib::lemma_len_subset(named, all);
    vstd::set_lib::lemma_subset_equality(named, all);
    assert(all.contains(index));
    assert(named.contains(index));
}

/// After the first `done` tasks of a completion order have ended, exactly
/// their slots are filled, each with the verdict of its own target.
proof fn lemma_replay_prefix(
    targets: Seq<Seq<char>>,
    matched: Seq<bool>,
    order: Seq<int>,
    done: nat,
)
    requires
        matched.len() == targets.len(),
        is_completion_order(order, targets.len()),
        done <= order.len(),
    ensures
        replay(blank_slots(targets), order.take(done as int), matched).len() == targets.len(),
        forall|i: int|
            0 <= i < targets.len() ==> #[trigger] replay(
                blank_slots(targets),
                order.take(done as int),
                matched,
            )[i] == (
                targets[i],
                if order.take(done as int).contains(i) {
                    Some(matched[i])
                } else {
                    None
                },
            ),
    decreases done,
{
    let prefix = order.take(done as int);
    if done > 0 {
        let before = order.take(done - 1);
        let index = order[done - 1];
        lemma_replay_prefix(targets, matched, order, (done - 1) as nat);
        assert(prefix.drop_last() == before);
        assert(prefix.last() == index);
        assert(0 <= index < targets.len());
        assert(!before.contains(index)) by {
            if before.contains(index) {
                let k = choose|k: int| 0 <= k < before.len() && before[k] == index;
                assert(order[k] == order[done - 1]);
            }
        }
        let slots = replay(blank_slots(targets), before, matched);
        assert(is_open(slots, index));
        assert forall|i: int| 0 <= i < targets.len() implies prefix.contains(i) == (
        before.contains(i) || i == index) by {
            if before.contains(i) {
                let k = choose|k: int| 0 <= k < before.len() && before[k] == i;
                assert(prefix[k] == i);
            }
            if i == index {
                assert(prefix[done - 1] == i);
            }
            if prefix.contains(i) && i != index {
                let k = choose|k: int| 0 <= k < prefix.len() && prefix[k] == i;
                assert(before[k] == i);
            }
        }
    }
}

/// The order in which the tasks end has no effect on the board: whichever
/// task ends first, once all have ended the slot of every target holds the
/// verdict of that target, so the report lists the verdicts in the order of
/// the targets.
pub proof fn law_completion_order_is_irrelevant(
    targets: Seq<Seq<char>>,
    matched: Seq<bool>,
    order: Seq<int>,
)
    requires
        matched.len() == targets.len(),
        is_completion_order(order, targets.len()),
    ensures
        replay(blank_slots(targets), order, matched) == filled_slots(targets, matched),
        is_complete(replay(blank_slots(targets), order, matched)),
        verdicts_of(replay(blank_slots(targets), order, matched)) == Seq::new(
            targets.len(),
            |i: int| (targets[i], matched[i]),
        ),
{
    let end = replay(blank_slots(targets), order, matched);
    lemma_replay_prefix(targets, matched, order, order.len());
    assert(order.take(order.len() as int) == order);
    assert forall|i: int| 0 <= i < targets.len() implies end[i] == (targets[i], Some(matched[i])) by {
        lemma_completion_order_names_all(order, targets.len(), i);
    }
    assert(end =~= filled_slots(targets, matched));
    assert(verdicts_of(end) =~= Seq::new(targets.len(), |i: int| (targets[i], matched[i])));
}

/// Two completion orders of the same scan end in the same board.
pub proof fn law_any_two_orders_agree(
    targets: Seq<Seq<char>>,
    matched: Seq<bool>,
    first: Seq<int>,
    second: Seq<int>,
)
    requires
        matched.len() == targets.len(),
        is_completion_order(first, targets.len()),
        is_completion_order(second, targets.len()),
    ensures
        replay(blank_slots(targets), first, matched) == replay(
            blank_slots(targets),
            second,
            matched,
        ),
{
    law_completion_order_is_irrelevant(targets, matched, first);
    law_completion_order_is_irrelevant(targets, matched, second);
}

/// A board has one slot for each target and keeps that number whatever is
/// handed in, in whatever order and however often; so has the list of its
/// verdicts.
pub proof fn law_one_verdict_per_target(
    targets: Seq<Seq<char>>,
    matched: Seq<bool>,
    handed_in: Seq<int>,
)
    ensures
        replay(blank_slots(targets), handed_in, matched).len() == targets.len(),
        verdicts_of(replay(blank_slots(targets), handed_in, matched)).len() == targets.len(),
    decreases handed_in.len(),
{
    if handed_in.len() > 0 {
        law_one_verdict_per_target(targets, matched, handed_in.drop_last());
    }
}

/// Why a verdict was not recorded.
#[derive(Clone, Copy, Debug, PartialEq, Eq)]
pub enum RecordError {
    /// The board has no slot of that index.
    NoSuchTarget,
    /// The slot holds a verdict already.
    AlreadyRecorded,
}

struct Slot {
    target: String,
    verdict: Option<bool>,
}

/// The slot board of one scan.
pub struct ScanBoard {
    slots: Vec<Slot>,
}

impl View for ScanBoard {
    type V = Slots;

    closed spec fn view(&self) -> Slots {
        Seq::new(self.slots@.len(), |i: int| (self.slots@[i].target@, self.slots@[i].verdict))
    }
}

impl ScanBoard {
    /// Opens a board with one empty slot for each target, in their order.
    pub fn new(targets: &Vec<String>) -> (board: ScanBoard)
        ensures
            board@ == blank_slots(string_views(targets@)),
            board@.len() == targets@.len(),
    {
        let mut slots: Vec<Slot> = Vec::new();
        let mut k: usize = 0;
        while k < targets.len()
            invariant
                k <= targets.len(),
                slots@.len() == k,
                forall|i: int|
                    0 <= i < k ==> (#[trigger] slots@[i]).target@ == targets@[i]@ && slots@[i].verdict
                        is None,
            decreases targets.len() - k,
        {
            slots.push(Slot { target: targets[k].clone(), verdict: None });
            k += 1;
        }
        let board = ScanBoard { slots };
        assert(board@ =~= blank_slots(string_views(targets@)));
        board
    }

    /// The number of slots, which is the number of targets.
    pub fn len(&self) -> (count: usize)
        ensures
            count == self@.len(),
    {
        self.slots.len()
    }

    /// The target of slot `index`, if there is such a slot.
    pub fn target(&self, index: usize) -> (target: Option<&str>)
        ensures
            index < self@.len() ==> target is Some && target->0@ == self@[index as int].0,
            index >= self@.len() ==> target is None,
    {
        if index < self.slots.len() {
            Some(self.slots[index].target.as_str())
        } else {
            None
        }
    }

    /// Records the verdict of the task of slot `index`. A slot takes one
    /// verdict; whatever else is handed in is refused and changes nothing.
    pub fn record(&mut self, index: usize, matched: bool) -> (result: Result<(), RecordError>)
        ensures
            final(self)@.len() == old(self)@.len(),
            match result {
                Ok(_) => is_open(old(self)@, index as int) && final(self)@ == recorded(
                    old(self)@,
                    index as int,
                    matched,
                ),
                Err(RecordError::NoSuchTarget) => index >= old(self)@.len() && final(self)@ == old(
                    self,
                )@,
                Err(RecordError::AlreadyRecorded) => index < old(self)@.len() && old(
                    self,
                )@[index as int].1 is Some && final(self)@ == old(self)@,
            },
    {
        if index >= self.slots.len() {
            return Err(RecordError::NoSuchTarget);
        }
        if self.slots[index].verdict.is_some() {
            return Err(RecordError::AlreadyRecorded);
        }
        self.slots[index].verdict = Some(matched);
        assert(self@ =~= recorded(old(self)@, index as int, matched));
        Ok(())
    }

    /// Tests whether every slot is filled.
    pub fn is_complete(&self) -> (complete: bool)
        ensures
            complete == is_complete(self@),
    {
        let mut k: usize = 0;
        while k < self.slots.len()
            invariant
                k <= self.slots.len(),
                forall|i: int| 0 <= i < k ==> (#[trigger] self@[i]).1 is Some,
            decreases self.slots.len() - k,
        {
            if self.slots[k].verdict.is_none() {
                assert(self@[k as int].1 is None);
                return false;
            }
            k += 1;
        }
        true
    }

    /// The report of the scan, once every slot is filled: one verdict for
    /// each target, in the order of the targets.
    pub fn report(&self) -> (report: Option<ScanReport>)
        ensures
            match report {
                Some(report) => is_complete(self@) && report@ == verdicts_of(self@) && report@.len()
                    == self@.len(),
                None => !is_complete(self@),
            },
    {
        let mut verdicts: Vec<Verdict> = Vec::new();
        let mut k: usize = 0;
        while k < self.slots.len()
            invariant
                k <= self.slots.len(),
                verdicts@.len() == k,
                forall|i: int| 0 <= i < k ==> (#[trigger] self@[i]).1 is Some,
                forall|i: int| 0 <= i < k ==> (#[trigger] verdicts@[i])@ == verdicts_of(self@)[i],
            decreases self.slots.len() - k,
        {
            match self.slots[k].verdict {
                Some(matched) => {
                    verdicts.push(Verdict { target: self.slots[k].target.clone(), matched });
                },
                None => {
                    assert(self@[k as int].1 is None);
                    return None;
                },
            }
            k += 1;
        }
        assert(verdict_views(verdicts@) =~= verdicts_of(self@));
        Some(ScanReport::from_verdicts(verdicts))
    }
}

} // verus!
