//! The scan task for one target: from the outcome of its fetch to a verdict
//! and, where one is due, an advisory notice. Every outcome yields a verdict.

use crate::classifier::classify;
use crate::fetch::{FetchOutcome, Outcome};
use crate::markers::{MarkerTable, Markers};
use vstd::prelude::*;

verus! {

/// Whether a target shows a post inside the window.
#[derive(Clone, Debug, PartialEq, Eq)]
pub struct Verdict {
    pub target: String,
    pub matched: bool,
}

impl View for Verdict {
    type V = (Seq<char>, bool);

    open spec fn view(&self) -> (Seq<char>, bool) {
        (self.target@, self.matched)
    }
}

/// What a scan task hands back: the verdict, and the notice to pass on to
/// whoever watches the scan, if there is one.
#[derive(Clone, Debug, PartialEq, Eq)]
pub struct ScanResult {
    pub verdict: Verdict,
    pub notice: Option<String>,
}

/// A fetch outcome matches when it is a page whose text matches the window.
/// A missing page and a failed fetch never match.
pub open spec fn outcome_matches(outcome: Outcome, max_days: nat, table: MarkerTable) -> bool {
    match outcome {
        Outcome::Content(text) => table.window_matches(text, max_days),
        Outcome::NotFound => false,
        Outcome::TransportError(_) => false,
    }
}

/// The notice that an outcome calls for. A page that was served calls for
/// none. A missing page calls for a warning where the caller asked for
/// warnings on dead links. A failed fetch always calls for one, since its
/// verdict says nothing about the page.
pub open spec fn notice_text(target: Seq<char>, outcome: Outcome, warn_on_missing: bool) -> Option<
    Seq<char>,
> {
    match outcome {
        Outcome::Content(_) => None,
        Outcome::NotFound => if warn_on_missing {
            Some("Warning: "@ + target + " does not exist."@)
        } else {
            None
        },
        Outcome::TransportError(detail) => Some("Error: "@ + detail),
    }
}

/// The text of an optional notice.
pub open spec fn notice_view(notice: Option<String>) -> Option<Seq<char>> {
    match notice {
        Some(text) => Some(text@),
        None => None,
    }
}

/// Concludes the scan of `target` from the outcome of its fetch.
pub fn scan(
    target: &str,
    outcome: &FetchOutcome,
    max_days: u32,
    warn_on_missing: bool,
    markers: &Markers,
) -> (result: ScanResult)
    ensures
        result.verdict.target@ == target@,
        result.verdict.matched == outcome_matches(outcome@, max_days as nat, markers@),
        notice_view(result.notice) == notice_text(target@, outcome@, warn_on_missing),
        *outcome is Content ==> result.notice is None,
        *outcome is NotFound ==> !result.verdict.matched && (result.notice is Some
            <==> warn_on_missing),
        *outcome is TransportError ==> !result.verdict.matched && result.notice is Some,
{
    match outcome {
        FetchOutcome::Content(text) => ScanResult {
            verdict: Verdict {
                target: String::from_str(target),
                matched: classify(text.as_str(), max_days, markers),
            },
            notice: None,
        },
        FetchOutcome::NotFound => {
            let notice = if warn_on_missing {
                Some(String::from_str("Warning: ").concat(target).concat(" does not exist."))
            } else {
                None
            };
            ScanResult {
                verdict: Verdict { target: String::from_str(target), matched: false },
                notice,
            }
        },
        FetchOutcome::TransportError(detail) => ScanResult {
            verdict: Verdict { target: String::from_str(target), matched: false },
            notice: Some(String::from_str("Error: ").concat(detail.as_str())),
        },
    }
}

} // verus!
