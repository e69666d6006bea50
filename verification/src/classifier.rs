//! The recency classifier: a page matches a window of `max_days` days when
//! the marker of some day bucket from zero to `max_days` is part of its text.

use crate::markers::{MarkerTable, Markers};
use crate::text::occurs_in;
use vstd::prelude::*;

verus! {

/// Says for every day bucket from zero to `max_days`, in that order, whether
/// its marker is part of `text`.
pub fn day_buckets(text: &str, max_days: u32, markers: &Markers) -> (buckets: Vec<bool>)
    ensures
        buckets@.len() == max_days + 1,
        forall|bucket: int|
            0 <= bucket <= max_days ==> buckets@[bucket] == markers@.bucket_present(
                text@,
                bucket as nat,
            ),
        buckets@.contains(true) == markers@.window_matches(text@, max_days as nat),
{
    let mut buckets: Vec<bool> = Vec::new();
    let mut bucket: u32 = 0;
    while bucket < max_days
        invariant
            bucket <= max_days,
            buckets@.len() == bucket,
            forall|b: int|
                0 <= b < bucket ==> buckets@[b] == markers@.bucket_present(text@, b as nat),
        decreases max_days - bucket,
    {
        buckets.push(markers.bucket_matches(text, bucket));
        bucket += 1;
    }
    buckets.push(markers.bucket_matches(text, max_days));
    proof {
        law_window_is_any_bucket(markers@, text@, max_days as nat, buckets@);
    }
    buckets
}

/// Tests whether some bucket holds `true`.
pub fn any_bucket(buckets: &Vec<bool>) -> (hit: bool)
    ensures
        hit == buckets@.contains(true),
{
    let mut k: usize = 0;
    while k < buckets.len()
        invariant
            k <= buckets.len(),
            forall|j: int| 0 <= j < k ==> !buckets@[j],
        decreases buckets.len() - k,
    {
        if buckets[k] {
            return true;
        }
        k += 1;
    }
    false
}

/// Decides whether `text` shows a post inside the window of `max_days` days:
/// whether the marker of some bucket from zero to `max_days` is part of it.
/// A window of zero days looks for the markers of the last 24 hours only.
pub fn classify(text: &str, max_days: u32, markers: &Markers) -> (matched: bool)
    ensures
        matched == markers@.window_matches(text@, max_days as nat),
{
    let mut bucket: u32 = 0;
    while bucket < max_days
        invariant
            bucket <= max_days,
            forall|b: nat| b < bucket ==> !markers@.bucket_present(text@, b),
        decreases max_days - bucket,
    {
        if markers.bucket_matches(text, bucket) {
            return true;
        }
        bucket += 1;
    }
    markers.bucket_matches(text, max_days)
}

/// The verdict of the classifier is that of the bucket list: a text matches a
/// window exactly when the list of its buckets holds a `true`.
pub proof fn law_window_is_any_bucket(
    table: MarkerTable,
    text: Seq<char>,
    max_days: nat,
    buckets: Seq<bool>,
)
    requires
        buckets.len() == max_days + 1,
        forall|bucket: int|
            0 <= bucket <= max_days ==> buckets[bucket] == table.bucket_present(
                text,
                bucket as nat,
            ),
    ensures
        table.window_matches(text, max_days) == buckets.contains(true),
{
    if table.window_matches(text, max_days) {
        let bucket = choose|bucket: nat|
            bucket <= max_days && #[trigger] table.bucket_present(text, bucket);
        assert(buckets[bucket as int]);
    }
    if buckets.contains(true) {
        let k = choose|k: int| 0 <= k < buckets.len() && buckets[k] == true;
        assert(table.bucket_present(text, k as nat));
    }
}

/// A wider window matches whatever a narrower one matches.
pub proof fn law_window_grows(table: MarkerTable, text: Seq<char>, narrow: nat, wide: nat)
    requires
        narrow <= wide,
        table.window_matches(text, narrow),
    ensures
        table.window_matches(text, wide),
{
    let bucket = choose|bucket: nat|
        bucket <= narrow && #[trigger] table.bucket_present(text, bucket);
    assert(table.bucket_present(text, bucket));
}

/// A text matches a window exactly when the window reaches the youngest
/// bucket whose marker the text holds.
pub proof fn law_youngest_bucket_decides(
    table: MarkerTable,
    text: Seq<char>,
    youngest: nat,
    max_days: nat,
)
    requires
        table.bucket_present(text, youngest),
        forall|bucket: nat| bucket < youngest ==> !table.bucket_present(text, bucket),
    ensures
        table.window_matches(text, max_days) <==> max_days >= youngest,
{
}

/// A text that holds the one-day marker matches exactly the windows of one
/// day or more. The window of zero days is left to the markers of the last 24
/// hours: a text that holds one of those beside the one-day marker matches
/// that window too, so the law speaks of such a text for the wider windows
/// only.
pub proof fn law_one_day_marker(table: MarkerTable, text: Seq<char>, max_days: nat)
    requires
        occurs_in(text, table.one_day),
        max_days == 0 ==> !table.recent_present(text),
    ensures
        table.window_matches(text, max_days) <==> max_days >= 1,
{
    assert(table.bucket_present(text, 1));
    if max_days == 0 {
        assert(!table.bucket_present(text, 0));
    }
}

/// A text that holds the marker of one bucket only matches exactly the
/// windows that reach that bucket.
pub proof fn law_single_marker(table: MarkerTable, text: Seq<char>, bucket: nat, max_days: nat)
    requires
        table.bucket_present(text, bucket),
        forall|other: nat| other != bucket ==> !table.bucket_present(text, other),
    ensures
        table.window_matches(text, max_days) <==> max_days >= bucket,
{
    law_youngest_bucket_decides(table, text, bucket, max_days);
}

/// A text that holds a marker of the last 24 hours matches every window, the
/// window of zero days included.
pub proof fn law_recent_marker(table: MarkerTable, text: Seq<char>, max_days: nat)
    requires
        table.recent_present(text),
    ensures
        table.window_matches(text, 0),
        table.window_matches(text, max_days),
{
    assert(table.bucket_present(text, 0));
}

} // verus!
