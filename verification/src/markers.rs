//! The marker vocabulary: which substrings of a page stand for which age of
//! its newest post. The vocabulary is a value handed to the classifier, so a
//! change in how the pages are rendered touches no scanning logic.

use crate::text::{
    contains, decimal, law_decimal_is_injective, occurs_in, push_decimal, string_views,
};
use vstd::prelude::*;

verus! {

/// The mathematical form of a vocabulary: every marker as its characters.
pub struct MarkerTable {
    /// Markers of a post from the last 24 hours; any one of them suffices.
    pub recent: Seq<Seq<char>>,
    /// The marker of a post that is one day old.
    pub one_day: Seq<char>,
    /// What precedes the number of days in the marker of an older post.
    pub days_prefix: Seq<char>,
    /// What follows the number of days in the marker of an older post.
    pub days_suffix: Seq<char>,
}

impl MarkerTable {
    /// The marker of a post that is `days` days old, for `days` of two or
    /// more: prefix, the number in decimal, suffix.
    pub open spec fn days_marker(self, days: nat) -> Seq<char> {
        self.days_prefix + decimal(days) + self.days_suffix
    }

    /// Some marker of the last 24 hours is part of `text`.
    pub open spec fn recent_present(self, text: Seq<char>) -> bool {
        exists|k: int| 0 <= k < self.recent.len() && occurs_in(text, #[trigger] self.recent[k])
    }

    /// The marker of day bucket `bucket` is part of `text`. Bucket zero is
    /// the last 24 hours, bucket one is one day, any other bucket is that
    /// many days.
    pub open spec fn bucket_present(self, text: Seq<char>, bucket: nat) -> bool {
        if bucket == 0 {
            self.recent_present(text)
        } else if bucket == 1 {
            occurs_in(text, self.one_day)
        } else {
            occurs_in(text, self.days_marker(bucket))
        }
    }

    /// Some bucket from zero up to and including `max_days` has its marker in
    /// `text`.
    pub open spec fn window_matches(self, text: Seq<char>, max_days: nat) -> bool {
        exists|bucket: nat| bucket <= max_days && #[trigger] self.bucket_present(text, bucket)
    }
}

/// Buckets of different numbers of days have different markers.
pub proof fn law_days_markers_differ(table: MarkerTable, first: nat, second: nat)
    requires
        first != second,
    ensures
        table.days_marker(first) != table.days_marker(second),
{
    if table.days_marker(first) == table.days_marker(second) {
        let start = table.days_prefix.len() as int;
        let one = table.days_marker(first);
        let other = table.days_marker(second);
        assert(decimal(first).len() == decimal(second).len()) by {
            assert(one.len() == other.len());
        }
        assert(one.subrange(start, start + decimal(first).len()) =~= decimal(first));
        assert(other.subrange(start, start + decimal(second).len()) =~= decimal(second));
        law_decimal_is_injective(first, second);
    }
}

/// The vocabulary that the listing pages are known to use.
pub open spec fn standard_table() -> MarkerTable {
    MarkerTable {
        recent: seq![" hours ago</a>"@, " hour ago</a>"@, " minutes ago</a>"@],
        one_day: ">1 day ago</a>"@,
        days_prefix: ">"@,
        days_suffix: " days ago</a>"@,
    }
}

/// A marker vocabulary as the caller writes it down.
#[derive(Clone, Debug, PartialEq, Eq)]
pub struct Markers {
    /// Markers of a post from the last 24 hours; any one of them suffices.
    pub recent: Vec<String>,
    /// The marker of a post that is one day old.
    pub one_day: String,
    /// What precedes the number of days in the marker of an older post.
    pub days_prefix: String,
    /// What follows the number of days in the marker of an older post.
    pub days_suffix: String,
}

impl View for Markers {
    type V = MarkerTable;

    open spec fn view(&self) -> MarkerTable {
        MarkerTable {
            recent: string_views(self.recent@),
            one_day: self.one_day@,
            days_prefix: self.days_prefix@,
            days_suffix: self.days_suffix@,
        }
    }
}

impl Markers {
    /// The vocabulary that the listing pages are known to use.
    pub fn standard() -> (markers: Markers)
        ensures
            markers@ == standard_table(),
    {
        let mut recent: Vec<String> = Vec::new();
        recent.push(String::from_str(" hours ago</a>"));
        recent.push(String::from_str(" hour ago</a>"));
        recent.push(String::from_str(" minutes ago</a>"));
        let markers = Markers {
            recent,
            one_day: String::from_str(">1 day ago</a>"),
            days_prefix: String::from_str(">"),
            days_suffix: String::from_str(" days ago</a>"),
        };
        assert(markers@.recent =~= standard_table().recent);
        markers
    }

    /// Builds the marker of a post that is `days` days old.
    pub fn days_marker(&self, days: u32) -> (marker: String)
        ensures
            marker@ == self@.days_marker(days as nat),
    {
        let mut marker = self.days_prefix.clone();
        push_decimal(&mut marker, days);
        marker.append(self.days_suffix.as_str());
        marker
    }

    /// Tests whether some marker of the last 24 hours is part of `text`.
    pub fn recent_matches(&self, text: &str) -> (hit: bool)
        ensures
            hit == self@.recent_present(text@),
    {
        let mut k: usize = 0;
        while k < self.recent.len()
            invariant
                k <= self.recent.len(),
                forall|j: int| 0 <= j < k ==> !occurs_in(text@, #[trigger] self@.recent[j]),
            decreases self.recent.len() - k,
        {
            if contains(text, self.recent[k].as_str()) {
                assert(occurs_in(text@, self@.recent[k as int]));
                return true;
            }
            k += 1;
        }
        false
    }

    /// Tests whether the marker of day bucket `bucket` is part of `text`.
    pub fn bucket_matches(&self, text: &str, bucket: u32) -> (hit: bool)
        ensures
            hit == self@.bucket_present(text@, bucket as nat),
    {
        if bucket == 0 {
            self.recent_matches(text)
        } else if bucket == 1 {
            contains(text, self.one_day.as_str())
        } else {
            let marker = self.days_marker(bucket);
            contains(text, marker.as_str())
        }
    }
}

} // verus!
