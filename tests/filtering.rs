use biblizap_table::article::{Article, Column};
use biblizap_table::filter::{Filters, RegexWrapper};

fn article(doi: &str, title: &str, score: i32) -> Article {
    Article {
        first_author: None,
        year_published: Some(2020),
        journal: Some("Nature".to_string()),
        title: Some(title.to_string()),
        summary: None,
        doi: Some(doi.to_string()),
        citations: None,
        score: Some(score),
    }
}

#[test]
fn unusable_pattern_falls_back_to_match_all() {
    let w = RegexWrapper::from("(unclosed");
    assert_eq!(w.as_str(), "");
    assert!(w.is_match("anything"));
    assert!(w.is_match(""));
    let ok = RegexWrapper::from("ab+c");
    assert_eq!(ok.as_str(), "ab+c");
    assert!(ok.is_match("xxabbbcxx"));
    assert!(!ok.is_match("ac"));
}

#[test]
fn regex_wrapper_equality_and_default() {
    assert!(RegexWrapper::from("a.b") == RegexWrapper::from("a.b"));
    assert!(RegexWrapper::from("a.b") != RegexWrapper::from("a.c"));
    assert!(RegexWrapper::default() == RegexWrapper::from(""));
    assert!(RegexWrapper::default() == RegexWrapper::from("[z"));
}

#[test]
fn unusable_column_pattern_hides_nothing() {
    let a = article("10.1/a", "Snow", 3);
    let mut bad = Filters::default();
    bad.set_column_pattern(Column::Title, "(((");
    let mut empty = Filters::default();
    empty.set_column_pattern(Column::Title, "");
    assert!(bad.accepts(&a));
    assert_eq!(bad.accepts(&a), empty.accepts(&a));
    let mut bad_global = Filters::default();
    bad_global.set_global_pattern("*");
    assert!(bad_global.accepts(&a));
}

#[test]
fn column_filters_combine_with_and() {
    let a = article("10.1/a", "Snowball sampling", 3);
    let mut f = Filters::default();
    f.set_column_pattern(Column::Title, "Snow");
    assert!(f.accepts(&a));
    f.set_column_pattern(Column::Journal, "Science");
    assert!(!f.accepts(&a));
    assert!(!a.matches(&f));
    f.set_column_pattern(Column::Journal, "Nat");
    assert!(f.accepts(&a));
    f.set_column_pattern(Column::Summary, "x");
    assert!(!f.accepts(&a));
}

#[test]
fn global_filter_combines_with_or() {
    let a = article("10.1/a", "Snowball", 3);
    let mut f = Filters::default();
    f.set_global_pattern("Nature");
    assert!(f.accepts(&a));
    f.set_global_pattern("2020");
    assert!(f.accepts(&a));
    f.set_global_pattern("^3$");
    assert!(f.accepts(&a));
    f.set_global_pattern("Science");
    assert!(!f.accepts(&a));
    assert!(a.matches_global(&regex::Regex::new("ball").unwrap()));
    assert!(!a.matches_global(&regex::Regex::new("zzz").unwrap()));
}

#[test]
fn absent_numbers_do_not_match_zero() {
    let a = Article {
        first_author: None,
        year_published: None,
        journal: None,
        title: None,
        summary: None,
        doi: None,
        citations: None,
        score: None,
    };
    let mut f = Filters::default();
    f.set_column_pattern(Column::Citations, "0");
    assert!(!f.accepts(&a));
    let mut g = Filters::default();
    g.set_global_pattern("0");
    assert!(!g.accepts(&a));
}
