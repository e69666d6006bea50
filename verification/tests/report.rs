use recent_posts::report::ScanReport;
use recent_posts::scan::Verdict;

fn verdict(target: &str, matched: bool) -> Verdict {
    Verdict { target: String::from(target), matched }
}

#[test]
fn report_keeps_the_verdicts_in_order() {
    let verdicts = vec![verdict("A", true), verdict("B", false), verdict("C", true)];
    let report = ScanReport::from_verdicts(verdicts.clone());
    assert_eq!(report.verdicts(), &verdicts);
}

#[test]
fn report_counts_targets_and_matches() {
    let report = ScanReport::from_verdicts(vec![
        verdict("A", true),
        verdict("B", false),
        verdict("C", true),
        verdict("D", false),
        verdict("E", false),
    ]);
    assert_eq!(report.total_count(), 5);
    assert_eq!(report.matched_count(), 2);
}

#[test]
fn report_lists_the_matched_targets_in_order() {
    let report = ScanReport::from_verdicts(vec![
        verdict("C", true),
        verdict("B", false),
        verdict("A", true),
        verdict("D", true),
    ]);
    assert_eq!(
        report.matched_targets(),
        vec![String::from("C"), String::from("A"), String::from("D")]
    );
    assert_eq!(report.matched_targets().len(), report.matched_count());
}

#[test]
fn report_of_nothing_is_empty() {
    let report = ScanReport::from_verdicts(vec![]);
    assert_eq!(report.total_count(), 0);
    assert_eq!(report.matched_count(), 0);
    assert!(report.verdicts().is_empty());
    assert!(report.matched_targets().is_empty());
}

#[test]
fn report_without_matches_counts_none() {
    let report = ScanReport::from_verdicts(vec![verdict("A", false), verdict("B", false)]);
    assert_eq!(report.total_count(), 2);
    assert_eq!(report.matched_count(), 0);
    assert!(report.matched_targets().is_empty());
}

#[test]
fn report_keeps_a_target_that_was_given_twice() {
    let report = ScanReport::from_verdicts(vec![verdict("A", true), verdict("A", true)]);
    assert_eq!(report.total_count(), 2);
    assert_eq!(report.matched_count(), 2);
    assert_eq!(report.matched_targets(), vec![String::from("A"), String::from("A")]);
}

#[test]
fn reports_of_the_same_verdicts_are_equal() {
    let first = ScanReport::from_verdicts(vec![verdict("A", true), verdict("B", false)]);
    let second = ScanReport::from_verdicts(vec![verdict("A", true), verdict("B", false)]);
    let other = ScanReport::from_verdicts(vec![verdict("B", false), verdict("A", true)]);
    assert_eq!(first, second);
    assert_ne!(first, other);
}
