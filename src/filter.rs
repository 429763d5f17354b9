use vstd::prelude::*;
use crate::article::{Article, Column, rendered};
use crate::text::{chars_of, same_chars};

verus! {

/// `regex::Regex`, opaque here: what is known of a value comes from the
/// functions below.
#[verifier::external_type_specification]
#[verifier::external_body]
pub struct ExRegex(regex::Regex);

/// Whether `regex::Regex::new` accepts a pattern (syntax and default size limit).
pub uninterp spec fn regex_compiles(pattern: Seq<char>) -> bool;

/// The source text that `regex::Regex::as_str` gives back for a regex.
pub uninterp spec fn regex_source(re: regex::Regex) -> Seq<char>;

/// Whether `regex::Regex::is_match` finds a match of `re` anywhere in `haystack`.
pub uninterp spec fn regex_finds(re: regex::Regex, haystack: Seq<char>) -> bool;

/// Relies on `regex::Regex::new`: it succeeds exactly on the patterns it
/// accepts, the regex keeps the pattern as its source, and the empty pattern
/// is accepted.
#[verifier::external_body]
fn compile(pattern: &str) -> (r: Option<regex::Regex>)
    ensures
        r is Some <==> regex_compiles(pattern@),
        r matches Some(re) ==> regex_source(re) == pattern@,
        pattern@.len() == 0 ==> r is Some,
{
    regex::Regex::new(pattern).ok()
}

/// Relies on `regex::Regex::is_match`: whether the regex matches somewhere in
/// the haystack; the empty regex matches (at offset 0) in every haystack.
#[verifier::external_body]
fn regex_is_match(re: &regex::Regex, haystack: &str) -> (r: bool)
    ensures
        r == regex_finds(*re, haystack@),
        regex_source(*re).len() == 0 ==> r,
{
    re.is_match(haystack)
}

/// Relies on `regex::Regex::as_str`: the regex's source text.
#[verifier::external_body]
fn regex_as_str(re: &regex::Regex) -> (r: &str)
    ensures
        r@ == regex_source(*re),
{
    re.as_str()
}

/// The source a matcher ends up with for a user pattern: the pattern itself
/// when it compiles, otherwise the empty pattern, which matches everything.
pub open spec fn effective_source(pattern: Seq<char>) -> Seq<char> {
    if regex_compiles(pattern) {
        pattern
    } else {
        Seq::empty()
    }
}

/// A compiled pattern that never fails: an unusable pattern is replaced by
/// the empty one.
#[derive(Debug)]
pub struct RegexWrapper {
    pub regex: regex::Regex,
}

impl RegexWrapper {
    /// Whether this matcher admits `text`: the empty pattern admits every
    /// text, any other one admits the texts in which its regex finds a match.
    pub open spec fn admits(self, text: Seq<char>) -> bool {
        self.source().len() == 0 || regex_finds(self.regex, text)
    }

    /// The matcher's source pattern.
    pub open spec fn source(self) -> Seq<char> {
        regex_source(self.regex)
    }

    /// Compiles `value`, falling back to the empty pattern when it does not compile.
    pub fn from(value: &str) -> (r: RegexWrapper)
        ensures
            r.source() == effective_source(value@),
    {
        match compile(value) {
            Some(re) => RegexWrapper { regex: re },
            None => RegexWrapper::match_all(),
        }
    }

    /// The matcher of the empty pattern.
    pub fn match_all() -> (r: RegexWrapper)
        ensures
            r.source().len() == 0,
    {
        proof {
            reveal_strlit("");
        }
        match compile("") {
            Some(re) => RegexWrapper { regex: re },
            None => vstd::pervasive::unreached(),
        }
    }

    /// Whether this matcher admits `text`.
    pub fn is_match(&self, text: &str) -> (r: bool)
        ensures
            r == self.admits(text@),
            self.source().len() == 0 ==> r,
    {
        regex_is_match(&self.regex, text)
    }

    /// Whether `re` finds a match in `text`.
    pub fn match_text(re: &regex::Regex, text: &String) -> (r: bool)
        ensures
            r == regex_finds(*re, text@),
            regex_source(*re).len() == 0 ==> r,
    {
        regex_is_match(re, text.as_str())
    }

    /// The matcher's source pattern.
    pub fn as_str(&self) -> (r: &str)
        ensures
            r@ == self.source(),
    {
        regex_as_str(&self.regex)
    }
}

impl PartialEq for RegexWrapper {
    fn eq(&self, other: &RegexWrapper) -> (r: bool) {
        same_chars(&chars_of(self.as_str()), &chars_of(other.as_str()))
    }
}

impl vstd::std_specs::cmp::PartialEqSpecImpl for RegexWrapper {
    open spec fn obeys_eq_spec() -> bool {
        true
    }

    open spec fn eq_spec(&self, other: &RegexWrapper) -> bool {
        self.source() == other.source()
    }
}

impl Default for RegexWrapper {
    fn default() -> (r: RegexWrapper)
        ensures
            r.source().len() == 0,
    {
        RegexWrapper::match_all()
    }
}

/// One matcher per filterable column plus one global matcher.
#[derive(Debug, PartialEq)]
pub struct Filters {
    pub first_author: RegexWrapper,
    pub year_published: RegexWrapper,
    pub journal: RegexWrapper,
    pub title: RegexWrapper,
    pub summary: RegexWrapper,
    pub doi: RegexWrapper,
    pub citations: RegexWrapper,
    pub score: RegexWrapper,
    pub global: RegexWrapper,
}

impl Filters {
    /// The matcher of column `c`.
    pub open spec fn matcher(self, c: Column) -> RegexWrapper {
        match c {
            Column::Doi => self.doi,
            Column::Title => self.title,
            Column::FirstAuthor => self.first_author,
            Column::Summary => self.summary,
            Column::YearPublished => self.year_published,
            Column::Citations => self.citations,
            Column::Score => self.score,
            Column::Journal => self.journal,
        }
    }

    /// Every column matcher admits the article's text in its column.
    pub open spec fn columns_admit(self, a: Article) -> bool {
        forall|c: Column| #[trigger] self.matcher(c).admits(rendered(a, c))
    }

    /// The global matcher admits the article's text in at least one column.
    pub open spec fn global_admits(self, a: Article) -> bool {
        exists|c: Column| #[trigger] self.global.admits(rendered(a, c))
    }

    /// The article is visible under these filters.
    pub open spec fn admits(self, a: Article) -> bool {
        self.columns_admit(a) && self.global_admits(a)
    }

    /// Filters that admit every article.
    pub fn new() -> (r: Filters)
        ensures
            forall|c: Column| (#[trigger] r.matcher(c)).source().len() == 0,
            r.global.source().len() == 0,
    {
        let r = Filters {
            first_author: RegexWrapper::match_all(),
            year_published: RegexWrapper::match_all(),
            journal: RegexWrapper::match_all(),
            title: RegexWrapper::match_all(),
            summary: RegexWrapper::match_all(),
            doi: RegexWrapper::match_all(),
            citations: RegexWrapper::match_all(),
            score: RegexWrapper::match_all(),
            global: RegexWrapper::match_all(),
        };
        assert forall|c: Column| (#[trigger] r.matcher(c)).source().len() == 0 by {
            match c {
                _ => {},
            }
        }
        r
    }

    /// Compiles `pattern` into the matcher of `column`, falling back to the
    /// empty pattern when it does not compile. The other matchers stay.
    pub fn set_column_pattern(&mut self, column: Column, pattern: &str)
        ensures
            final(self).matcher(column).source() == effective_source(pattern@),
            forall|c: Column| c != column ==> #[trigger] final(self).matcher(c) == old(self).matcher(c),
            final(self).global == old(self).global,
    {
        let m = RegexWrapper::from(pattern);
        match column {
            Column::Doi => self.doi = m,
            Column::Title => self.title = m,
            Column::FirstAuthor => self.first_author = m,
            Column::Summary => self.summary = m,
            Column::YearPublished => self.year_published = m,
            Column::Citations => self.citations = m,
            Column::Score => self.score = m,
            Column::Journal => self.journal = m,
        }
    }

    /// Compiles `pattern` into the global matcher, falling back to the empty
    /// pattern when it does not compile. The column matchers stay.
    pub fn set_global_pattern(&mut self, pattern: &str)
        ensures
            final(self).global.source() == effective_source(pattern@),
            forall|c: Column| #[trigger] final(self).matcher(c) == old(self).matcher(c),
    {
        self.global = RegexWrapper::from(pattern);
    }

    /// Whether `article` is visible: every column matcher admits its column
    /// and the global matcher admits at least one column.
    pub fn accepts(&self, article: &Article) -> (r: bool)
        ensures
            r == self.admits(*article),
    {
        let columns = article.matches(self);
        let global = article.matches_global(&self.global.regex);
        proof {
            if global && self.global.source().len() != 0 {
                let c = choose|c: Column| #[trigger] regex_finds(self.global.regex, rendered(*article, c));
                assert(self.global.admits(rendered(*article, c)));
            }
            if self.global.source().len() == 0 {
                assert(self.global.admits(rendered(*article, Column::Doi)));
            }
        }
        columns && global
    }
}

impl Default for Filters {
    fn default() -> (r: Filters)
        ensures
            forall|c: Column| (#[trigger] r.matcher(c)).source().len() == 0,
            r.global.source().len() == 0,
    {
        Filters::new()
    }
}

proof fn lemma_same_column_verdicts(f: Filters, g: Filters, a: Article)
    requires
        forall|c: Column| #[trigger]
            f.matcher(c).admits(rendered(a, c)) == g.matcher(c).admits(rendered(a, c)),
    ensures
        f.columns_admit(a) == g.columns_admit(a),
{
    if f.columns_admit(a) {
        assert forall|c: Column| #[trigger] g.matcher(c).admits(rendered(a, c)) by {
            assert(f.matcher(c).admits(rendered(a, c)));
        }
    }
    if g.columns_admit(a) {
        assert forall|c: Column| #[trigger] f.matcher(c).admits(rendered(a, c)) by {
            assert(g.matcher(c).admits(rendered(a, c)));
        }
    }
}

/// A column pattern that does not compile filters exactly as the empty
/// pattern does: the two filter sets, equal in every other matcher, admit
/// the same articles.
pub proof fn lemma_unusable_column_pattern(
    f: Filters,
    g: Filters,
    column: Column,
    pattern: Seq<char>,
    a: Article,
)
    requires
        !regex_compiles(pattern),
        f.matcher(column).source() == effective_source(pattern),
        g.matcher(column).source().len() == 0,
        forall|c: Column| c != column ==> #[trigger] f.matcher(c) == g.matcher(c),
        f.global == g.global,
    ensures
        f.admits(a) == g.admits(a),
{
    assert forall|c: Column| #[trigger]
        f.matcher(c).admits(rendered(a, c)) == g.matcher(c).admits(rendered(a, c)) by {
        if c != column {
            assert(f.matcher(c) == g.matcher(c));
        }
    }
    lemma_same_column_verdicts(f, g, a);
}

/// A global pattern that does not compile filters exactly as the empty
/// pattern does: the two filter sets, equal in every column matcher, admit
/// the same articles, namely those that every column matcher admits.
pub proof fn lemma_unusable_global_pattern(f: Filters, g: Filters, pattern: Seq<char>, a: Article)
    requires
        !regex_compiles(pattern),
        f.global.source() == effective_source(pattern),
        g.global.source().len() == 0,
        forall|c: Column| #[trigger] f.matcher(c) == g.matcher(c),
    ensures
        f.admits(a) == g.admits(a),
        f.admits(a) == f.columns_admit(a),
{
    assert(f.global.admits(rendered(a, Column::Doi)));
    assert(g.global.admits(rendered(a, Column::Doi)));
    assert forall|c: Column| #[trigger]
        f.matcher(c).admits(rendered(a, c)) == g.matcher(c).admits(rendered(a, c)) by {
        assert(f.matcher(c) == g.matcher(c));
    }
    lemma_same_column_verdicts(f, g, a);
}

/// Visibility composes by conjunction over the column matchers and by
/// disjunction over the columns for the global matcher.
pub proof fn lemma_accepts_composition(f: Filters, a: Article)
    ensures
        f.admits(a) == ((forall|c: Column| #[trigger] f.matcher(c).admits(rendered(a, c)))
            && (exists|c: Column| #[trigger] f.global.admits(rendered(a, c)))),
        !f.admits(a) <==> ((exists|c: Column| !#[trigger] f.matcher(c).admits(rendered(a, c)))
            || (forall|c: Column| !#[trigger] f.global.admits(rendered(a, c)))),
{
}

} // verus!
