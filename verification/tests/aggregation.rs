use captain_roster::aggregator::{collect_scripted, Aggregator, Progress};
use captain_roster::error::{AnyhowError, FailureKind};
use captain_roster::roster::{AggregationRequest, Entry, PageResult, PAGE_SIZE};

fn entries(names: &[&str]) -> Vec<Entry> {
    names.iter().map(|name| Entry::new(name.to_string())).collect()
}

fn page(current_page: i32, list: &[&str], top3: Option<&[&str]>) -> PageResult {
    PageResult { current_page, entries: entries(list), top3: top3.map(entries) }
}

fn names(roster: &[Entry]) -> Vec<String> {
    roster.iter().map(|entry| entry.username.clone()).collect()
}

fn request() -> AggregationRequest {
    AggregationRequest { room_id: 7734200, owner_id: 434334701 }
}

fn finished(end: (Progress, usize)) -> (Vec<String>, usize) {
    match end {
        (Progress::Done(Ok(roster)), calls) => (names(&roster), calls),
        (Progress::Done(Err(error)), _) => panic!("the walk failed: {}", error.describe()),
        (Progress::Fetch(_), _) => panic!("the walk did not end"),
    }
}

#[test]
fn first_query_asks_for_page_one() {
    let walk = Aggregator::new(request());
    let query = walk.query();
    assert_eq!(query.room_id, 7734200);
    assert_eq!(query.owner_id, 434334701);
    assert_eq!(query.page, 1);
    assert_eq!(query.page_size, 30);
    assert_eq!(PAGE_SIZE, 30);
}

#[test]
fn each_answer_moves_to_the_next_page() {
    let walk = Aggregator::new(request());
    let walk = match walk.advance(Ok(page(3, &["a"], None))) {
        Progress::Fetch(next) => next,
        Progress::Done(_) => panic!("ended on a page that exists"),
    };
    assert_eq!(walk.query().page, 2);
    assert_eq!(walk.query().room_id, 7734200);
    let walk = match walk.advance(Ok(page(3, &["b"], None))) {
        Progress::Fetch(next) => next,
        Progress::Done(_) => panic!("ended on a page that exists"),
    };
    assert_eq!(walk.query().page, 3);
}

#[test]
fn walk_ends_one_call_past_the_last_page() {
    let script = vec![
        Ok(page(3, &["a1", "a2"], None)),
        Ok(page(3, &["b1"], None)),
        Ok(page(3, &["c1", "c2", "c3"], None)),
        Ok(page(3, &[], None)),
    ];
    let (roster, calls) = finished(collect_scripted(request(), script));
    assert_eq!(roster, vec!["a1", "a2", "b1", "c1", "c2", "c3"]);
    assert_eq!(calls, 4);
}

#[test]
fn answers_after_the_end_are_not_asked_for() {
    let script = vec![
        Ok(page(1, &["a"], None)),
        Ok(page(1, &["ghost"], None)),
        Ok(page(9, &["never"], None)),
        Err(AnyhowError::new(FailureKind::Transport, "never".to_string())),
    ];
    let (roster, calls) = finished(collect_scripted(request(), script));
    assert_eq!(roster, vec!["a"]);
    assert_eq!(calls, 2);
}

#[test]
fn overrun_answer_adds_nothing() {
    let script = vec![Ok(page(0, &["x", "y"], Some(&["t"])))];
    let (roster, calls) = finished(collect_scripted(request(), script));
    assert!(roster.is_empty());
    assert_eq!(calls, 1);
}

#[test]
fn negative_reported_page_ends_the_walk() {
    let script = vec![Ok(page(-1, &["x"], None))];
    let (roster, calls) = finished(collect_scripted(request(), script));
    assert!(roster.is_empty());
    assert_eq!(calls, 1);
}

#[test]
fn top3_comes_before_the_first_page() {
    let script = vec![
        Ok(page(1, &["C", "D"], Some(&["A", "B"]))),
        Ok(page(1, &["E"], None)),
    ];
    let (roster, calls) = finished(collect_scripted(request(), script));
    assert_eq!(roster, vec!["A", "B", "C", "D"]);
    assert_eq!(calls, 2);
}

#[test]
fn top3_merge_order_over_two_pages() {
    let script = vec![
        Ok(page(2, &["C", "D"], Some(&["A", "B"]))),
        Ok(page(2, &["E"], None)),
        Ok(page(2, &[], None)),
    ];
    let (roster, calls) = finished(collect_scripted(request(), script));
    assert_eq!(roster, vec!["A", "B", "C", "D", "E"]);
    assert_eq!(calls, 3);
}

#[test]
fn top3_of_a_later_page_is_left_out() {
    let script = vec![
        Ok(page(2, &["C"], Some(&["A"]))),
        Ok(page(2, &["E"], Some(&["X", "Y"]))),
        Ok(page(2, &[], Some(&["Z"]))),
    ];
    let (roster, calls) = finished(collect_scripted(request(), script));
    assert_eq!(roster, vec!["A", "C", "E"]);
    assert_eq!(calls, 3);
}

#[test]
fn absent_top3_reads_as_empty() {
    let absent = vec![Ok(page(1, &["C", "D"], None)), Ok(page(1, &[], None))];
    let empty = vec![Ok(page(1, &["C", "D"], Some(&[]))), Ok(page(1, &[], None))];
    let (without, calls_without) = finished(collect_scripted(request(), absent));
    let (with_empty, calls_with_empty) = finished(collect_scripted(request(), empty));
    assert_eq!(without, vec!["C", "D"]);
    assert_eq!(with_empty, without);
    assert_eq!(calls_without, 2);
    assert_eq!(calls_with_empty, 2);
}

#[test]
fn duplicates_are_kept() {
    let script = vec![
        Ok(page(2, &["A", "B"], Some(&["A"]))),
        Ok(page(2, &["B"], None)),
        Ok(page(1, &[], None)),
    ];
    let (roster, _) = finished(collect_scripted(request(), script));
    assert_eq!(roster, vec!["A", "A", "B", "B"]);
}

#[test]
fn empty_page_does_not_end_the_walk() {
    let script = vec![
        Ok(page(3, &["a"], None)),
        Ok(page(3, &[], None)),
        Ok(page(3, &["c"], None)),
        Ok(page(3, &[], None)),
    ];
    let (roster, calls) = finished(collect_scripted(request(), script));
    assert_eq!(roster, vec!["a", "c"]);
    assert_eq!(calls, 4);
}

#[test]
fn short_page_is_not_taken_for_the_last() {
    let script = vec![
        Ok(page(2, &["only"], None)),
        Ok(page(2, &["more"], None)),
        Ok(page(2, &[], None)),
    ];
    let (roster, calls) = finished(collect_scripted(request(), script));
    assert_eq!(roster, vec!["only", "more"]);
    assert_eq!(calls, 3);
}

#[test]
fn reported_page_above_the_asked_one_goes_on() {
    let script = vec![Ok(page(5, &["a"], None))];
    match collect_scripted(request(), script) {
        (Progress::Fetch(walk), calls) => {
            assert_eq!(walk.query().page, 2);
            assert_eq!(calls, 1);
        },
        _ => panic!("the walk ended on a page that exists"),
    }
}

#[test]
fn empty_script_leaves_the_walk_at_page_one() {
    match collect_scripted(request(), Vec::new()) {
        (Progress::Fetch(walk), calls) => {
            assert_eq!(walk.query().page, 1);
            assert_eq!(calls, 0);
        },
        _ => panic!("the walk ended without an answer"),
    }
}

#[test]
fn failure_on_page_two_drops_page_one() {
    let script = vec![
        Ok(page(2, &["alice", "bob"], Some(&["carol"]))),
        Err(AnyhowError::new(FailureKind::Status, "HTTP status server error (502 Bad Gateway)".to_string())),
        Ok(page(2, &[], None)),
    ];
    match collect_scripted(request(), script) {
        (Progress::Done(Err(error)), calls) => {
            assert_eq!(error.kind, FailureKind::Status);
            assert_eq!(error.describe(), "HTTP status server error (502 Bad Gateway)");
            assert_eq!(calls, 2);
        },
        _ => panic!("the failure did not end the walk"),
    }
}

#[test]
fn failure_on_the_first_call_ends_the_walk() {
    let script = vec![Err(AnyhowError::new(FailureKind::Transport, "connection refused".to_string()))];
    match collect_scripted(request(), script) {
        (Progress::Done(Err(error)), calls) => {
            assert_eq!(error.kind, FailureKind::Transport);
            assert_eq!(error.message, "connection refused");
            assert_eq!(calls, 1);
        },
        _ => panic!("the failure did not end the walk"),
    }
}

#[test]
fn every_kind_of_failure_ends_the_walk() {
    for kind in [FailureKind::Transport, FailureKind::Status, FailureKind::Decode] {
        let walk = Aggregator::new(request());
        match walk.advance(Err(AnyhowError::new(kind, "broken".to_string()))) {
            Progress::Done(Err(error)) => {
                assert_eq!(error.kind, kind);
                assert_eq!(error.describe(), "broken");
            },
            _ => panic!("the failure did not end the walk"),
        }
    }
}

#[test]
fn same_answers_give_the_same_roster() {
    let script = || {
        vec![
            Ok(page(2, &["C", "D"], Some(&["A", "B"]))),
            Ok(page(2, &["E", "A"], None)),
            Ok(page(2, &[], None)),
        ]
    };
    let first = finished(collect_scripted(request(), script()));
    let second = finished(collect_scripted(request(), script()));
    assert_eq!(first, second);
    assert_eq!(first.0, vec!["A", "B", "C", "D", "E", "A"]);
}

#[test]
fn walk_by_hand_agrees_with_the_script() {
    let answers = vec![
        page(2, &["C"], Some(&["A"])),
        page(2, &["E"], None),
        page(2, &[], None),
    ];
    let mut walk = Aggregator::new(request());
    let mut asked = Vec::new();
    let mut roster = None;
    for answer in answers {
        asked.push(walk.query().page);
        match walk.advance(Ok(answer)) {
            Progress::Fetch(next) => walk = next,
            Progress::Done(result) => {
                roster = Some(result);
                break;
            },
        }
    }
    assert_eq!(asked, vec![1, 2, 3]);
    match roster {
        Some(Ok(roster)) => assert_eq!(names(&roster), vec!["A", "C", "E"]),
        _ => panic!("the walk did not end with a roster"),
    }
}
