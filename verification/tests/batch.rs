use recent_posts::batch::{scan_all, Fetched};
use recent_posts::board::ScanBoard;
use recent_posts::fetch::FetchOutcome;
use recent_posts::markers::Markers;
use recent_posts::scan::{scan, Verdict};

fn fetched(target: &str, outcome: FetchOutcome) -> Fetched {
    Fetched { target: String::from(target), outcome }
}

fn content(text: &str) -> FetchOutcome {
    FetchOutcome::Content(String::from(text))
}

fn verdict(target: &str, matched: bool) -> Verdict {
    Verdict { target: String::from(target), matched }
}

fn three_targets() -> Vec<Fetched> {
    vec![
        fetched("A", content("<a href=\"/x\">2 days ago</a>")),
        fetched("B", FetchOutcome::NotFound),
        fetched("C", content("<a href=\"/y\">5 minutes ago</a>")),
    ]
}

#[test]
fn three_targets_with_a_window_of_three_days() {
    let output = scan_all(&three_targets(), 3, false, &Markers::standard());
    assert_eq!(
        output.report.verdicts(),
        &vec![verdict("A", true), verdict("B", false), verdict("C", true)]
    );
    assert_eq!(output.report.matched_count(), 2);
    assert_eq!(output.report.total_count(), 3);
    assert_eq!(output.report.matched_targets(), vec![String::from("A"), String::from("C")]);
    assert_eq!(output.notices, vec![None, None, None]);
}

#[test]
fn three_targets_with_warnings_on_dead_links() {
    let output = scan_all(&three_targets(), 3, true, &Markers::standard());
    assert_eq!(
        output.report.verdicts(),
        &vec![verdict("A", true), verdict("B", false), verdict("C", true)]
    );
    assert_eq!(
        output.notices,
        vec![None, Some(String::from("Warning: B does not exist.")), None]
    );
}

#[test]
fn no_targets_give_an_empty_report() {
    for warn in [false, true] {
        let output = scan_all(&vec![], 3, warn, &Markers::standard());
        assert_eq!(output.report.total_count(), 0);
        assert_eq!(output.report.matched_count(), 0);
        assert!(output.report.verdicts().is_empty());
        assert!(output.notices.is_empty());
    }
}

#[test]
fn failed_fetches_still_count_as_targets() {
    let batch = vec![
        fetched("A", FetchOutcome::TransportError(String::from("timeout"))),
        fetched("B", FetchOutcome::NotFound),
        fetched("C", FetchOutcome::TransportError(String::from("dns"))),
        fetched("D", content(">1 day ago</a>")),
        fetched("E", FetchOutcome::NotFound),
    ];
    let output = scan_all(&batch, 1, false, &Markers::standard());
    assert_eq!(output.report.total_count(), 5);
    assert_eq!(output.report.verdicts().len(), 5);
    assert_eq!(output.report.matched_count(), 1);
    assert_eq!(
        output.report.verdicts(),
        &vec![
            verdict("A", false),
            verdict("B", false),
            verdict("C", false),
            verdict("D", true),
            verdict("E", false),
        ]
    );
    assert_eq!(
        output.notices,
        vec![
            Some(String::from("Error: timeout")),
            None,
            Some(String::from("Error: dns")),
            None,
            None,
        ]
    );
}

#[test]
fn a_batch_of_failures_alone_has_a_full_report() {
    let batch: Vec<Fetched> = (0..40)
        .map(|n| fetched(&format!("t{}", n), FetchOutcome::TransportError(format!("e{}", n))))
        .collect();
    let output = scan_all(&batch, 2, true, &Markers::standard());
    assert_eq!(output.report.total_count(), 40);
    assert_eq!(output.report.matched_count(), 0);
    assert_eq!(output.notices.len(), 40);
    assert!(output.notices.iter().all(|notice| notice.is_some()));
}

#[test]
fn the_window_decides_the_count() {
    let batch = vec![
        fetched("A", content(">3 hours ago</a>")),
        fetched("B", content(">1 day ago</a>")),
        fetched("C", content(">2 days ago</a>")),
        fetched("D", content(">5 days ago</a>")),
    ];
    let markers = Markers::standard();
    let counts: Vec<usize> = [0u32, 1, 2, 3, 4, 5, 6]
        .iter()
        .map(|max_days| scan_all(&batch, *max_days, false, &markers).report.matched_count())
        .collect();
    assert_eq!(counts, vec![1, 2, 3, 3, 3, 4, 4]);
}

#[test]
fn the_board_comes_to_the_report_of_the_batch_in_any_order() {
    let batch = three_targets();
    let markers = Markers::standard();
    let expected = scan_all(&batch, 3, true, &markers).report;
    let targets: Vec<String> = batch.iter().map(|item| item.target.clone()).collect();
    for order in [[2usize, 0, 1], [1, 2, 0], [0, 1, 2]] {
        let mut board = ScanBoard::new(&targets);
        for index in order {
            let result = scan(&batch[index].target, &batch[index].outcome, 3, true, &markers);
            assert_eq!(board.record(index, result.verdict.matched), Ok(()));
        }
        assert_eq!(board.report().unwrap(), expected);
    }
}
