//! The choice of targets among the lines of an input list: a line is a
//! target when it begins with the address of the site.

use crate::text::{begins_with, has_prefix, string_views};
use vstd::prelude::*;

verus! {

/// The address with which every listing page of the site begins.
pub const SITE_PREFIX: &'static str = "https://www.reddit.com/";

/// The lines that begin with `prefix`, in their order.
pub open spec fn lines_with_prefix(lines: Seq<Seq<char>>, prefix: Seq<char>) -> Seq<Seq<char>> {
    lines.filter(|line: Seq<char>| begins_with(line, prefix))
}

/// Keeps the lines that begin with `prefix`, in their order, and drops the
/// others. Nothing else is asked of a target, and none is changed.
pub fn select_targets(lines: &Vec<String>, prefix: &str) -> (targets: Vec<String>)
    ensures
        string_views(targets@) == lines_with_prefix(string_views(lines@), prefix@),
{
    let ghost all = string_views(lines@);
    let mut targets: Vec<String> = Vec::new();
    let mut k: usize = 0;
    proof {
        reveal(Seq::filter);
        assert(all.take(0) =~= Seq::empty());
        assert(string_views(targets@) =~= lines_with_prefix(all.take(0), prefix@));
    }
    while k < lines.len()
        invariant
            k <= lines.len(),
            all == string_views(lines@),
            string_views(targets@) == lines_with_prefix(all.take(k as int), prefix@),
        decreases lines.len() - k,
    {
        proof {
            reveal(Seq::filter);
            assert(all.take(k + 1).drop_last() == all.take(k as int));
        }
        if has_prefix(lines[k].as_str(), prefix) {
            let ghost before = targets@;
            targets.push(lines[k].clone());
            assert(string_views(targets@) =~= string_views(before).push(all[k as int]));
        }
        k += 1;
    }
    assert(all.take(k as int) == all);
    targets
}

} // verus!
