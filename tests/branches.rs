use branch_cleanup::branch::{selected_branch_index, Branch};
use branch_cleanup::deletion::{plan_deletion, DeletionError};
use branch_cleanup::keys::{event_for_key, Key};
use branch_cleanup::registry::{parse_branch, parse_listing, RegistryError};
use branch_cleanup::session::{Event, NoBranchesError, Session};

fn record(name: &str, email: &str, remote: &str) -> Branch {
    Branch {
        name: name.to_string(),
        title: "subject".to_string(),
        date: "Mon Jan 1 10:00:00 2024".to_string(),
        author: "Ann".to_string(),
        email: email.to_string(),
        remote: remote.to_string(),
    }
}

#[test]
fn parses_one_record() {
    let b = parse_branch("main---Fix the build---Tue---Ann Lee---ann@x.org---origin/main").unwrap();
    assert_eq!(b.name, "main");
    assert_eq!(b.title, "Fix the build");
    assert_eq!(b.date, "Tue");
    assert_eq!(b.author, "Ann Lee");
    assert_eq!(b.email, "ann@x.org");
    assert_eq!(b.remote, "origin/main");
}

#[test]
fn parses_record_without_upstream() {
    let b = parse_branch("topic---Add a-b---Wed---Bo---bo@x.org---").unwrap();
    assert_eq!(b.title, "Add a-b");
    assert_eq!(b.remote, "");
}

#[test]
fn short_record_is_refused() {
    assert!(parse_branch("main---title---date---author---email").is_none());
    assert!(parse_branch("").is_none());
}

#[test]
fn extra_fields_are_ignored() {
    let b = parse_branch("a---b---c---d---e---f---g").unwrap();
    assert_eq!(b.remote, "f");
}

#[test]
fn parses_listing_lines_in_order() {
    let out = "new---t1---d1---Ann---a@x---origin/new\nold---t2---d2---Bo---b@x---\n";
    let v = parse_listing(out).unwrap();
    assert_eq!(v.len(), 2);
    assert_eq!(v[0].name, "new");
    assert_eq!(v[0].remote, "origin/new");
    assert_eq!(v[1].name, "old");
    assert_eq!(v[1].email, "b@x");
}

#[test]
fn parses_listing_with_crlf_and_no_final_newline() {
    let out = "a---t---d---n---e@x---\r\nb---t---d---n---e@x---origin/b";
    let v = parse_listing(out).unwrap();
    assert_eq!(v.len(), 2);
    assert_eq!(v[0].remote, "");
    assert_eq!(v[1].remote, "origin/b");
}

#[test]
fn empty_listing_has_no_branches_and_no_session() {
    let v = parse_listing("").unwrap();
    assert!(v.is_empty());
    assert!(matches!(Session::new(v), Err(NoBranchesError)));
}

#[test]
fn malformed_line_is_reported() {
    let out = "a---t---d---n---e---r\nbroken line\nc---t---d---n---e---r\n";
    assert_eq!(parse_listing(out).unwrap_err(), RegistryError::MalformedRecord { line: 1 });
}

#[test]
fn finds_index_of_selected_branch() {
    let v = vec![record("a", "x", ""), record("b", "x", ""), record("c", "x", "")];
    assert_eq!(selected_branch_index(&v, &record("c", "x", "")), 2);
    assert_eq!(selected_branch_index(&v, &record("b", "x", "")), 1);
    assert_eq!(selected_branch_index(&v, &record("z", "x", "")), 0);
    assert_eq!(selected_branch_index(&v, &record("b", "y", "")), 0);
}

#[test]
fn no_upstream_means_no_remote_deletion() {
    let b = record("feature-x", "me@x.org", "");
    let plan = plan_deletion(&b, "me@x.org");
    assert_eq!(plan.local, "feature-x");
    assert!(plan.remote.is_none());
    assert!(plan_deletion(&b, "other@x.org").remote.is_none());
}

#[test]
fn other_author_means_local_deletion_only() {
    let b = record("feature-x", "them@x.org", "origin/feature-x");
    let plan = plan_deletion(&b, "me@x.org");
    assert_eq!(plan.local, "feature-x");
    assert!(plan.remote.is_none());
}

#[test]
fn own_branch_is_deleted_on_its_remote() {
    let b = record("feature-x", "me@x.org", "origin/feature-x");
    let plan = plan_deletion(&b, "me@x.org");
    assert_eq!(plan.local, "feature-x");
    let r = plan.remote.unwrap();
    assert_eq!(r.remote, "origin");
    assert_eq!(r.branch, "feature-x");
}

#[test]
fn upstream_splits_at_first_slash() {
    let b = record("x", "me@x.org", "upstream/team/x");
    let r = plan_deletion(&b, "me@x.org").remote.unwrap();
    assert_eq!(r.remote, "upstream");
    assert_eq!(r.branch, "team/x");
}

#[test]
fn upstream_without_slash_names_no_remote_branch() {
    let b = record("x", "me@x.org", "origin");
    assert!(plan_deletion(&b, "me@x.org").remote.is_none());
}

#[test]
fn deletion_outcomes() {
    let mine = plan_deletion(&record("x", "me@x.org", "origin/x"), "me@x.org");
    let local_only = plan_deletion(&record("y", "me@x.org", ""), "me@x.org");
    assert_eq!(mine.outcome(false, true), Err(DeletionError::LocalDeleteFailed));
    assert_eq!(mine.outcome(true, false), Err(DeletionError::RemoteDeleteFailed));
    assert_eq!(mine.outcome(true, true), Ok(()));
    assert_eq!(local_only.outcome(true, false), Ok(()));
    assert_eq!(local_only.outcome(false, false), Err(DeletionError::LocalDeleteFailed));
}

#[test]
fn keys_map_to_events() {
    assert_eq!(event_for_key(Key::Char('q'), true), Some(Event::Quit));
    assert_eq!(event_for_key(Key::Char('j'), true), Some(Event::MoveDown));
    assert_eq!(event_for_key(Key::Down, true), Some(Event::MoveDown));
    assert_eq!(event_for_key(Key::Char('k'), true), Some(Event::MoveUp));
    assert_eq!(event_for_key(Key::Up, true), Some(Event::MoveUp));
    assert_eq!(event_for_key(Key::Char(' '), true), Some(Event::ToggleSelect));
    assert_eq!(event_for_key(Key::Enter, true), Some(Event::Confirm));
    assert_eq!(event_for_key(Key::Char('x'), true), None);
    assert_eq!(event_for_key(Key::Other, true), None);
    assert_eq!(event_for_key(Key::Char('q'), false), None);
}

#[test]
fn branch_equality_is_field_by_field() {
    let a = record("a", "x", "o/a");
    assert!(a == a.duplicate());
    assert!(a != record("a", "x", "o/b"));
}

#[test]
fn row_puts_name_and_title_at_either_end() {
    let b = Branch {
        name: "main".to_string(),
        title: "Fix".to_string(),
        date: "today".to_string(),
        author: "Ann".to_string(),
        email: "a@x".to_string(),
        remote: String::new(),
    };
    let row = b.row_text();
    let lines: Vec<&str> = row.split('\n').collect();
    assert_eq!(lines.len(), 5);
    assert_eq!(lines[0].len(), 170);
    assert!(lines[0].starts_with("main "));
    assert!(lines[0].ends_with(" Fix"));
    assert_eq!(lines[1], format!("{:>170}", "today"));
    assert_eq!(lines[2], format!("{:>170}", "Ann"));
    assert_eq!(lines[3], format!("{:>170}", "a@x"));
    assert_eq!(lines[4], "");
}

#[test]
fn row_of_overlong_name_has_no_gap() {
    let b = Branch {
        name: "n".repeat(169),
        title: "tt".to_string(),
        date: "d".to_string(),
        author: "a".to_string(),
        email: "e".to_string(),
        remote: String::new(),
    };
    let row = b.row_text();
    assert!(row.starts_with(&format!("{}tt\n", "n".repeat(169))));
}
