use biblizap_table::article::{Article, Column};
use biblizap_table::status::{Session, TableStatus};
use biblizap_table::table::TableEngine;

fn scored(doi: &str, score: i32) -> Article {
    Article {
        first_author: None,
        year_published: None,
        journal: None,
        title: None,
        summary: None,
        doi: Some(doi.to_string()),
        citations: None,
        score: Some(score),
    }
}

fn dois(v: &[Article]) -> Vec<String> {
    v.iter().map(|a| a.doi.clone().unwrap_or_default()).collect()
}

#[test]
fn sort_filter_and_page_scenario() {
    let mut t = TableEngine::new(vec![scored("a", 5), scored("b", 9), scored("c", 1)]);
    t.sort_by(Column::Score);
    assert_eq!(dois(t.records()), vec!["b", "a", "c"]);
    t.set_global_pattern("a");
    assert_eq!(dois(&t.visible_records()), vec!["a"]);
    t.set_page_size(1);
    t.set_page(0);
    assert_eq!(dois(&t.visible_slice()), vec!["a"]);
    // One full page of one row: index 1 is the clamp bound and shows no row.
    t.set_page(1);
    assert_eq!(t.current_page(), 1);
    assert!(t.visible_slice().is_empty());
}

#[test]
fn visible_slice_is_repeatable() {
    let mut t = TableEngine::new((0..23).map(|i| scored(&format!("d{}", i), i)).collect());
    t.set_page(1);
    let first = dois(&t.visible_slice());
    let second = dois(&t.visible_slice());
    assert_eq!(first, second);
    assert_eq!(first.len(), 10);
    assert_eq!(first[0], "d10");
    let w1 = t.window();
    let w2 = t.window();
    assert_eq!(w1.page_links, w2.page_links);
    assert_eq!((w1.first_index, w1.last_index), (w2.first_index, w2.last_index));
}

#[test]
fn filtering_reclamps_the_page() {
    let mut t = TableEngine::new((0..50).map(|i| scored(&format!("id{}", i), i)).collect());
    t.set_page(4);
    assert_eq!(t.current_page(), 4);
    t.set_column_pattern(Column::Doi, "^id1");
    assert_eq!(t.visible_records().len(), 11);
    assert_eq!(t.current_page(), 1);
}

#[test]
fn page_size_change_reclamps_the_page() {
    let mut t = TableEngine::new((0..30).map(|i| scored(&format!("id{}", i), i)).collect());
    t.set_page(3);
    assert_eq!(t.current_page(), 3);
    t.set_page_size(15);
    assert_eq!(t.current_page(), 2);
    t.set_page_size(100);
    assert_eq!(t.current_page(), 0);
    assert_eq!(t.visible_slice().len(), 30);
}

#[test]
fn selection_survives_sort_filter_and_paging() {
    let mut t = TableEngine::new(vec![scored("a", 5), scored("b", 9), scored("c", 1)]);
    t.toggle_selection("c", true);
    t.toggle_selection("a", true);
    t.sort_by(Column::Score);
    t.set_global_pattern("b");
    t.set_page_size(1);
    assert!(t.is_selected("a"));
    assert!(t.is_selected("c"));
    assert_eq!(dois(&t.selected_records()), vec!["a", "c"]);
    let text = String::from_utf8(t.export_selected().unwrap()).unwrap();
    assert_eq!(text.lines().count(), 3);
    let all = String::from_utf8(t.export_all().unwrap()).unwrap();
    assert_eq!(all.lines().count(), 4);
}

#[test]
fn failure_then_success_shows_new_records() {
    let mut s = Session::new();
    let mut t = TableEngine::new(Vec::new());
    assert_eq!(*s.status(), TableStatus::NotRequested);
    let t1 = s.submit();
    assert_eq!(*s.status(), TableStatus::Requested);
    assert!(s.receive(&mut t, t1, Err("network down".to_string())));
    assert_eq!(*s.status(), TableStatus::RequestError("network down".to_string()));
    let t2 = s.submit();
    assert_eq!(*s.status(), TableStatus::Requested);
    assert!(s.receive(&mut t, t2, Ok(vec![scored("x", 1), scored("y", 7)])));
    assert_eq!(*s.status(), TableStatus::Available);
    assert_eq!(dois(&t.visible_slice()), vec!["y", "x"]);
}

#[test]
fn failed_research_keeps_previous_results() {
    let mut s = Session::new();
    let mut t = TableEngine::new(Vec::new());
    let t1 = s.submit();
    assert!(s.receive(&mut t, t1, Ok(vec![scored("old", 3)])));
    let t2 = s.submit();
    assert!(s.receive(&mut t, t2, Err("timeout".to_string())));
    assert_eq!(*s.status(), TableStatus::RequestError("timeout".to_string()));
    assert_eq!(dois(t.records()), vec!["old"]);
}

#[test]
fn stale_reply_is_dropped() {
    let mut s = Session::new();
    let mut t = TableEngine::new(Vec::new());
    let t1 = s.submit();
    let t2 = s.submit();
    assert_ne!(t1, t2);
    assert!(!s.receive(&mut t, t1, Ok(vec![scored("stale", 1)])));
    assert_eq!(*s.status(), TableStatus::Requested);
    assert!(t.records().is_empty());
    assert!(s.receive(&mut t, t2, Ok(vec![scored("fresh", 2)])));
    assert_eq!(dois(t.records()), vec!["fresh"]);
    assert!(!s.receive(&mut t, t2, Ok(vec![scored("again", 2)])));
    assert_eq!(dois(t.records()), vec!["fresh"]);
}

#[test]
fn reply_without_request_is_dropped() {
    let mut s = Session::new();
    let mut t = TableEngine::new(Vec::new());
    assert!(!s.receive(&mut t, 0, Ok(vec![scored("x", 1)])));
    assert_eq!(*s.status(), TableStatus::NotRequested);
}

#[test]
fn new_reply_reclamps_the_page() {
    let mut s = Session::new();
    let mut t = TableEngine::new((0..50).map(|i| scored(&format!("id{}", i), i)).collect());
    t.set_page(4);
    let ticket = s.submit();
    assert!(s.receive(&mut t, ticket, Ok(vec![scored("a", 1), scored("b", 2)])));
    assert_eq!(t.current_page(), 0);
    assert_eq!(dois(&t.visible_slice()), vec!["b", "a"]);
}
