use vstd::prelude::*;
use crate::filter::{Filters, RegexWrapper, regex_finds, regex_source};
use vstd::string::StringExecFns;
use crate::text::{chars_of, same_chars, int_text, int_to_string};

verus! {

/// One bibliographic result. Every field may be absent.
#[derive(Debug, Clone, PartialEq)]
pub struct Article {
    pub first_author: Option<String>,
    pub year_published: Option<i32>,
    pub journal: Option<String>,
    pub title: Option<String>,
    pub summary: Option<String>,
    pub doi: Option<String>,
    pub citations: Option<i32>,
    pub score: Option<i32>,
}

/// The columns of the result table, in display order.
#[derive(Debug, Clone, Copy, PartialEq, Eq, Structural)]
pub enum Column {
    Doi,
    Title,
    FirstAuthor,
    Summary,
    YearPublished,
    Citations,
    Score,
    Journal,
}

/// Text of an optional text field: the text itself, or empty when absent.
pub open spec fn opt_text(o: Option<String>) -> Seq<char> {
    match o {
        Some(s) => s@,
        None => Seq::empty(),
    }
}

/// Text of an optional integer field: its decimal form, or empty when absent.
pub open spec fn opt_int_text(o: Option<i32>) -> Seq<char> {
    match o {
        Some(i) => int_text(i as int),
        None => Seq::empty(),
    }
}

/// The text that column `c` shows, filters and sorts on for article `a`.
pub open spec fn rendered(a: Article, c: Column) -> Seq<char> {
    match c {
        Column::Doi => opt_text(a.doi),
        Column::Title => opt_text(a.title),
        Column::FirstAuthor => opt_text(a.first_author),
        Column::Summary => opt_text(a.summary),
        Column::YearPublished => opt_int_text(a.year_published),
        Column::Citations => opt_int_text(a.citations),
        Column::Score => opt_int_text(a.score),
        Column::Journal => opt_text(a.journal),
    }
}

/// The column whose header reads `name`, if any.
pub open spec fn column_named(name: Seq<char>) -> Option<Column> {
    if name == "Doi"@ {
        Some(Column::Doi)
    } else if name == "Title"@ {
        Some(Column::Title)
    } else if name == "First author"@ {
        Some(Column::FirstAuthor)
    } else if name == "Abstract"@ {
        Some(Column::Summary)
    } else if name == "Year published"@ {
        Some(Column::YearPublished)
    } else if name == "Citations"@ {
        Some(Column::Citations)
    } else if name == "Score"@ {
        Some(Column::Score)
    } else if name == "Journal"@ {
        Some(Column::Journal)
    } else {
        None
    }
}

fn same_text(a: &Vec<char>, b: &str) -> (r: bool)
    ensures
        r == (a@ == b@),
{
    same_chars(a, &chars_of(b))
}

fn opt_string(o: &Option<String>) -> (r: String)
    ensures
        r@ == opt_text(*o),
{
    match o {
        Some(s) => s.clone(),
        None => String::new(),
    }
}

/// The decimal text of a present integer; `None` when absent.
pub fn unwrap_int(year: &Option<i32>) -> (r: Option<String>)
    ensures
        match *year {
            Some(v) => r is Some && r->0@ == int_text(v as int),
            None => r is None,
        },
{
    match year {
        Some(v) => Some(int_to_string(*v)),
        None => None,
    }
}

fn opt_int_string(o: &Option<i32>) -> (r: String)
    ensures
        r@ == opt_int_text(*o),
{
    match unwrap_int(o) {
        Some(s) => s,
        None => String::new(),
    }
}

fn copy_opt(o: &Option<String>) -> (r: Option<String>)
    ensures
        r == *o,
{
    match o {
        Some(s) => Some(s.clone()),
        None => None,
    }
}

impl Column {
    /// Every column, in display order.
    pub open spec fn all() -> Seq<Column> {
        seq![
            Column::Doi,
            Column::Title,
            Column::FirstAuthor,
            Column::Summary,
            Column::YearPublished,
            Column::Citations,
            Column::Score,
            Column::Journal,
        ]
    }

    /// The header text of this column.
    pub open spec fn header_spec(self) -> Seq<char> {
        match self {
            Column::Doi => "Doi"@,
            Column::Title => "Title"@,
            Column::FirstAuthor => "First author"@,
            Column::Summary => "Abstract"@,
            Column::YearPublished => "Year published"@,
            Column::Citations => "Citations"@,
            Column::Score => "Score"@,
            Column::Journal => "Journal"@,
        }
    }

    /// The header text of this column.
    pub fn header(&self) -> (r: &'static str)
        ensures
            r@ == self.header_spec(),
    {
        match self {
            Column::Doi => "Doi",
            Column::Title => "Title",
            Column::FirstAuthor => "First author",
            Column::Summary => "Abstract",
            Column::YearPublished => "Year published",
            Column::Citations => "Citations",
            Column::Score => "Score",
            Column::Journal => "Journal",
        }
    }

    /// The column with the given header text.
    pub fn from_name(name: &str) -> (r: Option<Column>)
        ensures
            r == column_named(name@),
    {
        let n = chars_of(name);
        if same_text(&n, "Doi") {
            Some(Column::Doi)
        } else if same_text(&n, "Title") {
            Some(Column::Title)
        } else if same_text(&n, "First author") {
            Some(Column::FirstAuthor)
        } else if same_text(&n, "Abstract") {
            Some(Column::Summary)
        } else if same_text(&n, "Year published") {
            Some(Column::YearPublished)
        } else if same_text(&n, "Citations") {
            Some(Column::Citations)
        } else if same_text(&n, "Score") {
            Some(Column::Score)
        } else if same_text(&n, "Journal") {
            Some(Column::Journal)
        } else {
            None
        }
    }
}

impl Article {
    /// The text of one column of this article.
    pub fn render(&self, column: Column) -> (r: String)
        ensures
            r@ == rendered(*self, column),
    {
        match column {
            Column::Doi => opt_string(&self.doi),
            Column::Title => opt_string(&self.title),
            Column::FirstAuthor => opt_string(&self.first_author),
            Column::Summary => opt_string(&self.summary),
            Column::YearPublished => opt_int_string(&self.year_published),
            Column::Citations => opt_int_string(&self.citations),
            Column::Score => opt_int_string(&self.score),
            Column::Journal => opt_string(&self.journal),
        }
    }

    /// The text of the column whose header reads `name`; `None` for a name
    /// that is no column.
    pub fn get(&self, name: &str) -> (r: Option<String>)
        ensures
            match column_named(name@) {
                Some(c) => r is Some && r->0@ == rendered(*self, c),
                None => r is None,
            },
    {
        match Column::from_name(name) {
            Some(c) => Some(self.render(c)),
            None => None,
        }
    }

    /// The resolver link of this article's identifier, if it has one.
    pub fn doi_link(&self) -> (r: Option<String>)
        ensures
            match self.doi {
                Some(d) => r is Some && r->0@ == "https://doi.org/"@ + d@,
                None => r is None,
            },
    {
        match &self.doi {
            Some(d) => {
                let mut link = "https://doi.org/".to_owned();
                link.append(d.as_str());
                Some(link)
            },
            None => None,
        }
    }

    /// A field-for-field copy.
    pub fn duplicate(&self) -> (r: Article)
        ensures
            r == *self,
    {
        Article {
            first_author: copy_opt(&self.first_author),
            year_published: self.year_published,
            journal: copy_opt(&self.journal),
            title: copy_opt(&self.title),
            summary: copy_opt(&self.summary),
            doi: copy_opt(&self.doi),
            citations: self.citations,
            score: self.score,
        }
    }
}

impl Article {
    /// Whether the regex finds a match in at least one column of this article.
    pub fn matches_global(&self, regex: &regex::Regex) -> (r: bool)
        ensures
            r == exists|c: Column| #[trigger] regex_finds(*regex, rendered(*self, c)),
            regex_source(*regex).len() == 0 ==> r,
    {
        let doi = RegexWrapper::match_text(regex, &self.render(Column::Doi));
        let title = RegexWrapper::match_text(regex, &self.render(Column::Title));
        let journal = RegexWrapper::match_text(regex, &self.render(Column::Journal));
        let summary = RegexWrapper::match_text(regex, &self.render(Column::Summary));
        let first_author = RegexWrapper::match_text(regex, &self.render(Column::FirstAuthor));
        let year_published = RegexWrapper::match_text(regex, &self.render(Column::YearPublished));
        let score = RegexWrapper::match_text(regex, &self.render(Column::Score));
        let citations = RegexWrapper::match_text(regex, &self.render(Column::Citations));
        let r = doi || title || journal || summary || first_author || year_published || score
            || citations;
        if !r {
            assert forall|c: Column| !#[trigger] regex_finds(*regex, rendered(*self, c)) by {
                match c {
                    _ => {},
                }
            }
        }
        r
    }

    /// Whether every column matcher of `filters` admits this article's text
    /// in its column.
    pub fn matches(&self, filters: &Filters) -> (r: bool)
        ensures
            r == filters.columns_admit(*self),
    {
        let doi = filters.doi.is_match(&self.render(Column::Doi));
        let title = filters.title.is_match(&self.render(Column::Title));
        let journal = filters.journal.is_match(&self.render(Column::Journal));
        let summary = filters.summary.is_match(&self.render(Column::Summary));
        let first_author = filters.first_author.is_match(&self.render(Column::FirstAuthor));
        let year_published = filters.year_published.is_match(
            &self.render(Column::YearPublished),
        );
        let score = filters.score.is_match(&self.render(Column::Score));
        let citations = filters.citations.is_match(&self.render(Column::Citations));
        let r = doi && title && journal && summary && first_author && year_published && score
            && citations;
        if r {
            assert forall|c: Column| #[trigger] filters.matcher(c).admits(rendered(*self, c)) by {
                match c {
                    _ => {},
                }
            }
        } else {
            let ghost f = *filters;
            let ghost a = *self;
            if !doi {
                assert(!f.matcher(Column::Doi).admits(rendered(a, Column::Doi)));
            } else if !title {
                assert(!f.matcher(Column::Title).admits(rendered(a, Column::Title)));
            } else if !journal {
                assert(!f.matcher(Column::Journal).admits(rendered(a, Column::Journal)));
            } else if !summary {
                assert(!f.matcher(Column::Summary).admits(rendered(a, Column::Summary)));
            } else if !first_author {
                assert(!f.matcher(Column::FirstAuthor).admits(rendered(a, Column::FirstAuthor)));
            } else if !year_published {
                assert(!f.matcher(Column::YearPublished).admits(rendered(a, Column::YearPublished)));
            } else if !score {
                assert(!f.matcher(Column::Score).admits(rendered(a, Column::Score)));
            } else {
                assert(!f.matcher(Column::Citations).admits(rendered(a, Column::Citations)));
            }
        }
        r
    }
}

} // verus!
