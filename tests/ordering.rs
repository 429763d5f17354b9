use biblizap_table::article::{Article, Column};
use biblizap_table::sort::{sort_by_column, sort_by_score};

fn article(doi: &str, title: Option<&str>, score: Option<i32>) -> Article {
    Article {
        first_author: None,
        year_published: None,
        journal: None,
        title: title.map(|t| t.to_string()),
        summary: None,
        doi: Some(doi.to_string()),
        citations: None,
        score,
    }
}

fn dois(v: &[Article]) -> Vec<String> {
    v.iter().map(|a| a.doi.clone().unwrap()).collect()
}

#[test]
fn score_column_sorts_on_text_descending() {
    let mut v = vec![
        article("a", None, Some(5)),
        article("b", None, Some(9)),
        article("c", None, Some(1)),
    ];
    sort_by_column(&mut v, Column::Score);
    assert_eq!(dois(&v), vec!["b", "a", "c"]);
}

#[test]
fn numbers_sort_as_text() {
    let mut v = vec![
        article("ten", None, Some(10)),
        article("nine", None, Some(9)),
        article("none", None, None),
        article("hundred", None, Some(100)),
    ];
    sort_by_column(&mut v, Column::Score);
    assert_eq!(dois(&v), vec!["nine", "hundred", "ten", "none"]);
}

#[test]
fn sort_is_stable_and_idempotent() {
    let mut v = vec![
        article("1", Some("b"), None),
        article("2", Some("a"), None),
        article("3", Some("b"), None),
        article("4", None, None),
        article("5", Some("a"), None),
        article("6", Some("c"), None),
    ];
    sort_by_column(&mut v, Column::Title);
    assert_eq!(dois(&v), vec!["6", "1", "3", "2", "5", "4"]);
    let once = v.clone();
    sort_by_column(&mut v, Column::Title);
    assert_eq!(v, once);
}

#[test]
fn sort_empty_and_single() {
    let mut v: Vec<Article> = Vec::new();
    sort_by_column(&mut v, Column::Doi);
    assert!(v.is_empty());
    let mut w = vec![article("x", None, None)];
    sort_by_column(&mut w, Column::Doi);
    assert_eq!(dois(&w), vec!["x"]);
}

#[test]
fn score_sort_is_numeric_with_absent_as_zero() {
    let mut v = vec![
        article("a", None, Some(10)),
        article("b", None, Some(9)),
        article("c", None, None),
        article("d", None, Some(-2)),
        article("e", None, Some(10)),
        article("f", None, Some(0)),
    ];
    sort_by_score(&mut v);
    assert_eq!(dois(&v), vec!["a", "e", "b", "c", "f", "d"]);
}

#[test]
fn sort_many_records_descending() {
    let mut v: Vec<Article> = (0..500)
        .map(|i| article(&format!("{:03}", (i * 37) % 500), None, None))
        .collect();
    sort_by_column(&mut v, Column::Doi);
    let got = dois(&v);
    let mut expected = got.clone();
    expected.sort();
    expected.reverse();
    assert_eq!(got, expected);
    assert_eq!(got.len(), 500);
}
