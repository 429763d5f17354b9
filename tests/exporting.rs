use biblizap_table::article::Article;
use biblizap_table::export::to_csv;

fn full(doi: &str, title: &str) -> Article {
    Article {
        first_author: Some("Doe, J.".to_string()),
        year_published: Some(2019),
        journal: Some("J. \"Quoted\"".to_string()),
        title: Some(title.to_string()),
        summary: Some("line one\nline two, with comma".to_string()),
        doi: Some(doi.to_string()),
        citations: Some(-3),
        score: Some(42),
    }
}

fn empty() -> Article {
    Article {
        first_author: None,
        year_published: None,
        journal: None,
        title: None,
        summary: None,
        doi: None,
        citations: None,
        score: None,
    }
}

#[test]
fn header_and_rows() {
    let bytes = to_csv(&[empty()]).unwrap();
    let text = String::from_utf8(bytes).unwrap();
    assert_eq!(
        text,
        "Doi,Title,First author,Abstract,Year published,Citations,Score,Journal\n,,,,,,,\n"
    );
}

#[test]
fn no_articles_gives_header_only() {
    let text = String::from_utf8(to_csv(&[]).unwrap()).unwrap();
    assert_eq!(text, "Doi,Title,First author,Abstract,Year published,Citations,Score,Journal\n");
}

#[test]
fn export_round_trips_through_csv_reader() {
    let articles = vec![full("10.1/a", "A, B and C"), empty(), full("10.1/c", "")];
    let bytes = to_csv(&articles).unwrap();
    let mut reader = csv::Reader::from_reader(bytes.as_slice());
    let headers: Vec<String> = reader.headers().unwrap().iter().map(|s| s.to_string()).collect();
    assert_eq!(headers.len(), 8);
    let rows: Vec<Vec<String>> = reader
        .records()
        .map(|r| r.unwrap().iter().map(|s| s.to_string()).collect())
        .collect();
    assert_eq!(rows.len(), articles.len());
    for (row, a) in rows.iter().zip(articles.iter()) {
        assert_eq!(row[0], a.doi.clone().unwrap_or_default());
        assert_eq!(row[1], a.title.clone().unwrap_or_default());
        assert_eq!(row[2], a.first_author.clone().unwrap_or_default());
        assert_eq!(row[3], a.summary.clone().unwrap_or_default());
        assert_eq!(row[7], a.journal.clone().unwrap_or_default());
        let num = |s: &String| if s.is_empty() { None } else { Some(s.parse::<i32>().unwrap()) };
        assert_eq!(num(&row[4]), a.year_published);
        assert_eq!(num(&row[5]), a.citations);
        assert_eq!(num(&row[6]), a.score);
    }
}

#[test]
fn export_of_many_articles_succeeds_with_one_row_each() {
    let articles: Vec<Article> = (0..200)
        .map(|i| if i % 3 == 0 { empty() } else { full(&format!("10.1/{}", i), "t,\"x\"\n") })
        .collect();
    let bytes = to_csv(&articles).unwrap();
    let mut reader = csv::Reader::from_reader(bytes.as_slice());
    assert_eq!(reader.records().count(), 200);
}
