use biblizap_table::article::Article;
use biblizap_table::selection::SelectionSet;

fn article(doi: Option<&str>) -> Article {
    Article {
        first_author: None,
        year_published: None,
        journal: None,
        title: None,
        summary: None,
        doi: doi.map(|d| d.to_string()),
        citations: None,
        score: None,
    }
}

#[test]
fn toggle_twice_is_idempotent() {
    let mut s = SelectionSet::new();
    s.toggle("10.1/a", true);
    s.toggle("10.1/a", true);
    assert!(s.is_selected("10.1/a"));
    assert_eq!(s.selected_identifiers(), vec!["10.1/a".to_string()]);
}

#[test]
fn unselect_never_added_is_noop() {
    let mut s = SelectionSet::new();
    s.toggle("x", false);
    assert!(!s.is_selected("x"));
    assert!(s.selected_identifiers().is_empty());
    s.toggle("y", true);
    s.toggle("x", false);
    assert_eq!(s.selected_identifiers(), vec!["y".to_string()]);
}

#[test]
fn unselect_removes() {
    let mut s = SelectionSet::new();
    s.toggle("a", true);
    s.toggle("b", true);
    s.toggle("a", false);
    assert!(!s.is_selected("a"));
    assert!(s.is_selected("b"));
}

#[test]
fn article_without_identifier_is_ignored() {
    let mut s = SelectionSet::new();
    s.toggle_article(&article(None), true);
    assert!(s.selected_identifiers().is_empty());
    s.toggle_article(&article(Some("d")), true);
    assert!(s.is_selected("d"));
}

#[test]
fn selected_articles_keep_order() {
    let mut s = SelectionSet::new();
    s.toggle("c", true);
    s.toggle("a", true);
    let all = vec![article(Some("a")), article(None), article(Some("b")), article(Some("c"))];
    let got: Vec<Option<String>> = s.selected_articles(&all).into_iter().map(|a| a.doi).collect();
    assert_eq!(got, vec![Some("a".to_string()), Some("c".to_string())]);
}
