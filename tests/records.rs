use biblizap_table::article::{unwrap_int, Article, Column};
use biblizap_table::text::{chars_of, int_to_string, text_less};

fn article(doi: &str, score: i32) -> Article {
    Article {
        first_author: None,
        year_published: None,
        journal: None,
        title: None,
        summary: None,
        doi: Some(doi.to_string()),
        citations: None,
        score: Some(score),
    }
}

#[test]
fn decimal_text_of_integers() {
    assert_eq!(int_to_string(0), "0");
    assert_eq!(int_to_string(7), "7");
    assert_eq!(int_to_string(42), "42");
    assert_eq!(int_to_string(1990), "1990");
    assert_eq!(int_to_string(-7), "-7");
    assert_eq!(int_to_string(i32::MAX), "2147483647");
    assert_eq!(int_to_string(i32::MIN), "-2147483648");
}

#[test]
fn unwrap_int_renders_present_values_only() {
    assert_eq!(unwrap_int(&Some(2021)), Some("2021".to_string()));
    assert_eq!(unwrap_int(&None), None);
}

#[test]
fn text_order_is_lexicographic() {
    assert!(text_less(&chars_of("10"), &chars_of("9")));
    assert!(text_less(&chars_of("ab"), &chars_of("abc")));
    assert!(!text_less(&chars_of("b"), &chars_of("a")));
    assert!(!text_less(&chars_of("a"), &chars_of("a")));
    assert!(text_less(&chars_of(""), &chars_of("a")));
    assert_eq!(chars_of("héllo"), vec!['h', 'é', 'l', 'l', 'o']);
}

#[test]
fn render_gives_text_or_empty() {
    let a = Article {
        first_author: Some("Curie".to_string()),
        year_published: Some(1903),
        journal: None,
        title: Some("Radiation".to_string()),
        summary: None,
        doi: Some("10.1/x".to_string()),
        citations: Some(0),
        score: None,
    };
    assert_eq!(a.render(Column::Doi), "10.1/x");
    assert_eq!(a.render(Column::Title), "Radiation");
    assert_eq!(a.render(Column::FirstAuthor), "Curie");
    assert_eq!(a.render(Column::Summary), "");
    assert_eq!(a.render(Column::YearPublished), "1903");
    assert_eq!(a.render(Column::Citations), "0");
    assert_eq!(a.render(Column::Score), "");
    assert_eq!(a.render(Column::Journal), "");
}

#[test]
fn get_by_header_name() {
    let a = article("abc", 12);
    assert_eq!(a.get("Doi"), Some("abc".to_string()));
    assert_eq!(a.get("Score"), Some("12".to_string()));
    assert_eq!(a.get("Abstract"), Some(String::new()));
    assert_eq!(a.get("Nope"), None);
    assert_eq!(a.get("doi"), None);
    assert_eq!(Column::from_name("First author"), Some(Column::FirstAuthor));
    assert_eq!(Column::from_name("Year published"), Some(Column::YearPublished));
    assert_eq!(Column::Summary.header(), "Abstract");
}

#[test]
fn duplicate_copies_every_field() {
    let a = article("x", 3);
    assert_eq!(a.duplicate(), a);
}

#[test]
fn doi_link_prefixes_resolver() {
    let a = article("10.1000/xyz", 1);
    assert_eq!(a.doi_link(), Some("https://doi.org/10.1000/xyz".to_string()));
    let mut b = article("x", 1);
    b.doi = None;
    assert_eq!(b.doi_link(), None);
}
