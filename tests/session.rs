use branch_cleanup::branch::Branch;
use branch_cleanup::deletion::DeletionError;
use branch_cleanup::session::{Event, NoBranchesError, Phase, Session};

fn branch(name: &str, date: &str) -> Branch {
    Branch {
        name: name.to_string(),
        title: format!("work on {}", name),
        date: date.to_string(),
        author: "Ann".to_string(),
        email: "ann@example.com".to_string(),
        remote: format!("origin/{}", name),
    }
}

fn three() -> Vec<Branch> {
    vec![branch("A", "3"), branch("B", "2"), branch("C", "1")]
}

fn progress(s: &Session) -> f64 {
    s.completed() as f64 / s.total() as f64
}

#[test]
fn empty_listing_is_refused() {
    assert!(matches!(Session::new(Vec::new()), Err(NoBranchesError)));
}

#[test]
fn new_session_starts_browsing_at_first_branch() {
    let s = Session::new(three()).unwrap();
    assert_eq!(s.cursor(), 0);
    assert_eq!(s.phase(), Phase::Browsing);
    assert_eq!(s.branches().len(), 3);
    assert!(!s.is_selected(0));
    assert!(s.failures().is_empty());
}

#[test]
fn moving_down_wraps_to_first() {
    let mut s = Session::new(three()).unwrap();
    s.handle_event(Event::MoveDown);
    assert_eq!(s.cursor(), 1);
    s.handle_event(Event::MoveDown);
    assert_eq!(s.cursor(), 2);
    assert!(s.branches()[s.cursor()].name == "C");
    s.handle_event(Event::MoveDown);
    assert_eq!(s.cursor(), 0);
}

#[test]
fn moving_up_wraps_to_last() {
    let mut s = Session::new(three()).unwrap();
    s.handle_event(Event::MoveUp);
    assert_eq!(s.cursor(), 2);
    s.handle_event(Event::MoveUp);
    s.handle_event(Event::MoveUp);
    assert_eq!(s.cursor(), 0);
}

#[test]
fn single_branch_cursor_stays() {
    let mut s = Session::new(vec![branch("only", "1")]).unwrap();
    s.handle_event(Event::MoveDown);
    assert_eq!(s.cursor(), 0);
    s.handle_event(Event::MoveUp);
    assert_eq!(s.cursor(), 0);
}

#[test]
fn toggling_twice_restores_selection() {
    let mut s = Session::new(three()).unwrap();
    s.handle_event(Event::ToggleSelect);
    assert!(s.is_selected(0));
    s.handle_event(Event::MoveDown);
    s.handle_event(Event::ToggleSelect);
    s.handle_event(Event::ToggleSelect);
    assert!(s.is_selected(0));
    assert!(!s.is_selected(1));
    s.handle_event(Event::MoveUp);
    s.handle_event(Event::ToggleSelect);
    assert!(!s.is_selected(0));
}

#[test]
fn deleting_two_selected_branches() {
    let mut s = Session::new(three()).unwrap();
    s.handle_event(Event::MoveDown);
    s.handle_event(Event::ToggleSelect);
    s.handle_event(Event::MoveDown);
    s.handle_event(Event::ToggleSelect);
    s.handle_event(Event::Confirm);
    assert_eq!(s.phase(), Phase::Deleting);
    assert_eq!(s.total(), 2);
    assert_eq!(s.completed(), 0);

    let first = s.tick().unwrap();
    assert!(first.name == "B" || first.name == "C");
    assert_eq!(progress(&s), 0.5);
    assert_eq!(s.phase(), Phase::Deleting);

    let second = s.tick().unwrap();
    assert!(second.name == "B" || second.name == "C");
    assert!(second.name != first.name);
    assert_eq!(progress(&s), 1.0);
    assert!(!s.is_selected(1));
    assert!(!s.is_selected(2));

    assert!(s.tick().is_none());
    assert_eq!(s.phase(), Phase::Done);
}

#[test]
fn most_recent_mark_is_deleted_first() {
    let mut s = Session::new(three()).unwrap();
    s.handle_event(Event::MoveUp);
    s.handle_event(Event::ToggleSelect);
    s.handle_event(Event::MoveDown);
    s.handle_event(Event::ToggleSelect);
    s.handle_event(Event::Confirm);
    assert!(s.tick().unwrap().name == "A");
    assert!(s.tick().unwrap().name == "C");
}

#[test]
fn progress_never_decreases() {
    let mut s = Session::new(three()).unwrap();
    for _ in 0..3 {
        s.handle_event(Event::ToggleSelect);
        s.handle_event(Event::MoveDown);
    }
    s.handle_event(Event::Confirm);
    let mut last = 0.0;
    while s.tick().is_some() {
        let p = progress(&s);
        assert!(p >= last);
        last = p;
    }
    assert_eq!(last, 1.0);
    assert_eq!(s.completed(), s.total());
    assert_eq!(s.phase(), Phase::Done);
}

#[test]
fn confirming_nothing_ends_after_one_tick() {
    let mut s = Session::new(three()).unwrap();
    s.handle_event(Event::Confirm);
    assert_eq!(s.total(), 0);
    assert!(s.tick().is_none());
    assert_eq!(s.phase(), Phase::Done);
}

#[test]
fn events_are_ignored_while_deleting() {
    let mut s = Session::new(three()).unwrap();
    s.handle_event(Event::ToggleSelect);
    s.handle_event(Event::Confirm);
    s.handle_event(Event::MoveDown);
    s.handle_event(Event::ToggleSelect);
    s.handle_event(Event::Quit);
    assert_eq!(s.cursor(), 0);
    assert_eq!(s.phase(), Phase::Deleting);
    assert!(s.is_selected(0));
}

#[test]
fn quitting_deletes_nothing() {
    let mut s = Session::new(three()).unwrap();
    s.handle_event(Event::ToggleSelect);
    s.handle_event(Event::Quit);
    assert_eq!(s.phase(), Phase::Done);
    assert!(s.tick().is_none());
    assert_eq!(s.completed(), 0);
    assert!(s.is_selected(0));
}

#[test]
fn failures_are_recorded_in_order() {
    let mut s = Session::new(three()).unwrap();
    s.record_failure("B".to_string(), DeletionError::LocalDeleteFailed);
    s.record_failure("C".to_string(), DeletionError::RemoteDeleteFailed);
    assert_eq!(s.failures().len(), 2);
    assert_eq!(s.failures()[0].branch, "B");
    assert_eq!(s.failures()[0].error, DeletionError::LocalDeleteFailed);
    assert_eq!(s.failures()[1].branch, "C");
    assert_eq!(s.failures()[1].error, DeletionError::RemoteDeleteFailed);
}
