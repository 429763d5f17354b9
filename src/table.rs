use vstd::prelude::*;
use crate::article::{Article, Column};
use crate::export::{ExportError, csv_encoding, export_table, to_csv};
use crate::filter::Filters;
use crate::pagination::{Window, compute_window, clamped_page, first_row, last_row, total_pages};
use crate::selection::{SelectionSet, is_marked, toggled};
use crate::sort::{sort_by_column, sorted_by_column};

verus! {

/// Rows a page holds until the user picks another size.
pub const DEFAULT_PAGE_SIZE: usize = 10;

/// The articles of `s` that `f` admits, in order.
pub open spec fn visible_of(s: Seq<Article>, f: Filters) -> Seq<Article> {
    s.filter(|a: Article| f.admits(a))
}

/// The result table: the fetched articles (reordered in place by sorting),
/// the filters, the last sort column, the page size and current page, and
/// the selection. What it shows is derived from these on every call.
#[derive(Debug)]
pub struct TableEngine {
    records: Vec<Article>,
    filters: Filters,
    sort_column: Option<Column>,
    page_size: usize,
    current_page: usize,
    selection: SelectionSet,
}

/// The number of articles of `records` that `filters` admits.
pub fn count_visible(records: &Vec<Article>, filters: &Filters) -> (r: usize)
    ensures
        r == visible_of(records@, *filters).len(),
{
    let ghost pred = |a: Article| filters.admits(a);
    let mut n: usize = 0;
    let mut i: usize = 0;
    while i < records.len()
        invariant
            i <= records@.len(),
            pred == (|a: Article| filters.admits(a)),
            n == records@.subrange(0, i as int).filter(pred).len(),
            n <= i,
        decreases records@.len() - i,
    {
        proof {
            assert(records@.subrange(0, i + 1).drop_last() =~= records@.subrange(0, i as int));
            reveal(Seq::filter);
        }
        if filters.accepts(&records[i]) {
            n = n + 1;
        }
        i = i + 1;
    }
    proof {
        assert(records@.subrange(0, records@.len() as int) =~= records@);
    }
    n
}

/// The articles of `records` that `filters` admits, in order.
pub fn filter_records(records: &Vec<Article>, filters: &Filters) -> (r: Vec<Article>)
    ensures
        r@ == visible_of(records@, *filters),
{
    let ghost pred = |a: Article| filters.admits(a);
    let mut out: Vec<Article> = Vec::new();
    let mut i: usize = 0;
    while i < records.len()
        invariant
            i <= records@.len(),
            pred == (|a: Article| filters.admits(a)),
            out@ == records@.subrange(0, i as int).filter(pred),
        decreases records@.len() - i,
    {
        proof {
            assert(records@.subrange(0, i + 1).drop_last() =~= records@.subrange(0, i as int));
            reveal(Seq::filter);
        }
        if filters.accepts(&records[i]) {
            out.push(records[i].duplicate());
        }
        i = i + 1;
    }
    proof {
        assert(records@.subrange(0, records@.len() as int) =~= records@);
    }
    out
}

fn page_within(page: usize, visible: usize, page_size: usize) -> (r: usize)
    requires
        page_size > 0,
    ensures
        r == clamped_page(visible as nat, page_size as nat, page as nat),
{
    let tp = visible / page_size;
    if page > tp {
        tp
    } else {
        page
    }
}

impl TableEngine {
    /// The stored articles, in storage order.
    pub closed spec fn articles(&self) -> Seq<Article> {
        self.records@
    }

    /// The filters.
    pub closed spec fn filter_set(&self) -> Filters {
        self.filters
    }

    /// The last column sorted on.
    pub closed spec fn sort_key(&self) -> Option<Column> {
        self.sort_column
    }

    /// Rows per page.
    pub closed spec fn rows_per_page(&self) -> nat {
        self.page_size as nat
    }

    /// The current page.
    pub closed spec fn page(&self) -> nat {
        self.current_page as nat
    }

    /// The marked identifiers.
    pub closed spec fn marked(&self) -> Set<Seq<char>> {
        self.selection@
    }

    /// The articles the filters admit, in storage order.
    pub open spec fn visible(&self) -> Seq<Article> {
        visible_of(self.articles(), self.filter_set())
    }

    /// The page size is positive, the current page lies within the pages of
    /// the visible articles, and the selection is well formed.
    pub closed spec fn wf(&self) -> bool {
        &&& self.page_size > 0
        &&& self.current_page <= total_pages(self.visible().len(), self.page_size as nat)
        &&& self.selection.wf()
    }

    /// A table over `records`: no filter, no sort, the first page of
    /// `DEFAULT_PAGE_SIZE` rows, nothing selected.
    pub fn new(records: Vec<Article>) -> (r: TableEngine)
        ensures
            r.wf(),
            r.articles() == records@,
            forall|c: Column| (#[trigger] r.filter_set().matcher(c)).source().len() == 0,
            r.filter_set().global.source().len() == 0,
            r.sort_key() is None,
            r.rows_per_page() == DEFAULT_PAGE_SIZE,
            r.page() == 0,
            r.marked() == Set::<Seq<char>>::empty(),
    {
        TableEngine {
            records,
            filters: Filters::new(),
            sort_column: None,
            page_size: DEFAULT_PAGE_SIZE,
            current_page: 0,
            selection: SelectionSet::new(),
        }
    }

    /// Moves the current page back within range after the visible articles
    /// or the page size changed.
    fn reclamp(&mut self)
        requires
            old(self).page_size > 0,
            old(self).selection.wf(),
        ensures
            final(self).wf(),
            final(self).current_page == clamped_page(
                final(self).visible().len(),
                final(self).page_size as nat,
                old(self).current_page as nat,
            ),
            final(self).records == old(self).records,
            final(self).filters == old(self).filters,
            final(self).sort_column == old(self).sort_column,
            final(self).page_size == old(self).page_size,
            final(self).selection == old(self).selection,
    {
        let n = count_visible(&self.records, &self.filters);
        self.current_page = page_within(self.current_page, n, self.page_size);
    }

    /// Replaces the articles with a new result set, in the order given; the
    /// filters, page size and selection stay, the sort is forgotten and the
    /// current page is moved back within range.
    pub fn replace_records(&mut self, records: Vec<Article>)
        requires
            old(self).wf(),
        ensures
            final(self).wf(),
            final(self).articles() == records@,
            final(self).filter_set() == old(self).filter_set(),
            final(self).sort_key() is None,
            final(self).rows_per_page() == old(self).rows_per_page(),
            final(self).page() == clamped_page(final(self).visible().len(), old(self).rows_per_page(), old(self).page()),
            final(self).marked() == old(self).marked(),
    {
        self.records = records;
        self.sort_column = None;
        self.reclamp();
    }

    /// Sets the pattern of one column's filter (an unusable pattern matches
    /// everything); the current page is moved back within range.
    pub fn set_column_pattern(&mut self, column: Column, pattern: &str)
        requires
            old(self).wf(),
        ensures
            final(self).wf(),
            final(self).filter_set().matcher(column).source() == crate::filter::effective_source(pattern@),
            forall|c: Column| c != column ==> #[trigger] final(self).filter_set().matcher(c) == old(self).filter_set().matcher(c),
            final(self).filter_set().global == old(self).filter_set().global,
            final(self).articles() == old(self).articles(),
            final(self).sort_key() == old(self).sort_key(),
            final(self).rows_per_page() == old(self).rows_per_page(),
            final(self).page() == clamped_page(final(self).visible().len(), old(self).rows_per_page(), old(self).page()),
            final(self).marked() == old(self).marked(),
    {
        self.filters.set_column_pattern(column, pattern);
        self.reclamp();
    }

    /// Sets the pattern of the global filter (an unusable pattern matches
    /// everything); the current page is moved back within range.
    pub fn set_global_pattern(&mut self, pattern: &str)
        requires
            old(self).wf(),
        ensures
            final(self).wf(),
            final(self).filter_set().global.source() == crate::filter::effective_source(pattern@),
            forall|c: Column| #[trigger] final(self).filter_set().matcher(c) == old(self).filter_set().matcher(c),
            final(self).articles() == old(self).articles(),
            final(self).sort_key() == old(self).sort_key(),
            final(self).rows_per_page() == old(self).rows_per_page(),
            final(self).page() == clamped_page(final(self).visible().len(), old(self).rows_per_page(), old(self).page()),
            final(self).marked() == old(self).marked(),
    {
        self.filters.set_global_pattern(pattern);
        self.reclamp();
    }

    /// Sorts the stored articles in place, descending on the text of
    /// `column`, keeping the order of equal texts.
    pub fn sort_by(&mut self, column: Column)
        requires
            old(self).wf(),
        ensures
            final(self).wf(),
            sorted_by_column(old(self).articles(), final(self).articles(), column),
            final(self).sort_key() == Some(column),
            final(self).filter_set() == old(self).filter_set(),
            final(self).rows_per_page() == old(self).rows_per_page(),
            final(self).page() == clamped_page(final(self).visible().len(), old(self).rows_per_page(), old(self).page()),
            final(self).marked() == old(self).marked(),
    {
        sort_by_column(&mut self.records, column);
        self.sort_column = Some(column);
        self.reclamp();
    }

    /// Goes to page `page`, clamped to the pages there are.
    pub fn set_page(&mut self, page: usize)
        requires
            old(self).wf(),
        ensures
            final(self).wf(),
            final(self).page() == clamped_page(old(self).visible().len(), old(self).rows_per_page(), page as nat),
            final(self).articles() == old(self).articles(),
            final(self).filter_set() == old(self).filter_set(),
            final(self).sort_key() == old(self).sort_key(),
            final(self).rows_per_page() == old(self).rows_per_page(),
            final(self).marked() == old(self).marked(),
    {
        self.current_page = page;
        self.reclamp();
    }

    /// Shows `page_size` rows a page; the current page is moved back within
    /// range.
    pub fn set_page_size(&mut self, page_size: usize)
        requires
            old(self).wf(),
            page_size > 0,
        ensures
            final(self).wf(),
            final(self).rows_per_page() == page_size,
            final(self).page() == clamped_page(old(self).visible().len(), page_size as nat, old(self).page()),
            final(self).page() <= total_pages(final(self).visible().len(), page_size as nat),
            final(self).articles() == old(self).articles(),
            final(self).filter_set() == old(self).filter_set(),
            final(self).sort_key() == old(self).sort_key(),
            final(self).marked() == old(self).marked(),
    {
        self.page_size = page_size;
        self.reclamp();
    }

    /// The stored articles, in storage order.
    pub fn records(&self) -> (r: &Vec<Article>)
        ensures
            r@ == self.articles(),
    {
        &self.records
    }

    /// The filters.
    pub fn filters(&self) -> (r: &Filters)
        ensures
            *r == self.filter_set(),
    {
        &self.filters
    }

    /// The last column sorted on.
    pub fn sort_column(&self) -> (r: Option<Column>)
        ensures
            r == self.sort_key(),
    {
        self.sort_column
    }

    /// Rows per page.
    pub fn page_size(&self) -> (r: usize)
        ensures
            r == self.rows_per_page(),
    {
        self.page_size
    }

    /// The current page.
    pub fn current_page(&self) -> (r: usize)
        ensures
            r == self.page(),
    {
        self.current_page
    }

    /// The articles the filters admit, in storage order.
    pub fn visible_records(&self) -> (r: Vec<Article>)
        ensures
            r@ == self.visible(),
    {
        filter_records(&self.records, &self.filters)
    }

    /// The row bounds and page links of the current page.
    pub fn window(&self) -> (w: Window)
        requires
            self.wf(),
        ensures
            w.current_page == self.page(),
            w.first_index == first_row(self.visible().len(), self.rows_per_page(), self.page()),
            w.last_index == last_row(self.visible().len(), self.rows_per_page(), self.page()),
            w.page_links@ == crate::pagination::page_links(self.visible().len(), self.rows_per_page(), self.page()),
            w.first_index <= w.last_index <= self.visible().len(),
    {
        let n = count_visible(&self.records, &self.filters);
        compute_window(n, self.page_size, self.current_page)
    }

    /// The rows shown: the current page of the visible articles.
    pub fn visible_slice(&self) -> (r: Vec<Article>)
        requires
            self.wf(),
        ensures
            r@ == self.visible().subrange(
                first_row(self.visible().len(), self.rows_per_page(), self.page()) as int,
                last_row(self.visible().len(), self.rows_per_page(), self.page()) as int,
            ),
    {
        let visible = self.visible_records();
        let w = compute_window(visible.len(), self.page_size, self.current_page);
        let mut out: Vec<Article> = Vec::new();
        let mut k: usize = w.first_index;
        while k < w.last_index
            invariant
                w.first_index <= k <= w.last_index <= visible@.len(),
                out@ == visible@.subrange(w.first_index as int, k as int),
            decreases w.last_index - k,
        {
            out.push(visible[k].duplicate());
            k = k + 1;
            proof {
                assert(out@ =~= visible@.subrange(w.first_index as int, k as int));
            }
        }
        out
    }

    /// Marks (`selected`) or unmarks the article with identifier `id`.
    pub fn toggle_selection(&mut self, id: &str, selected: bool)
        requires
            old(self).wf(),
        ensures
            final(self).wf(),
            final(self).marked() == toggled(old(self).marked(), id@, selected),
            final(self).articles() == old(self).articles(),
            final(self).filter_set() == old(self).filter_set(),
            final(self).sort_key() == old(self).sort_key(),
            final(self).rows_per_page() == old(self).rows_per_page(),
            final(self).page() == old(self).page(),
    {
        self.selection.toggle(id, selected);
    }

    /// Whether the article with identifier `id` is marked.
    pub fn is_selected(&self, id: &str) -> (r: bool)
        ensures
            r == self.marked().contains(id@),
    {
        self.selection.is_selected(id)
    }

    /// The stored articles whose identifier is marked, in storage order,
    /// whatever the filters and the page.
    pub fn selected_records(&self) -> (r: Vec<Article>)
        ensures
            r@ == self.articles().filter(|a: Article| is_marked(self.marked(), a)),
    {
        self.selection.selected_articles(&self.records)
    }

    /// CSV text of every stored article.
    pub fn export_all(&self) -> (r: Result<Vec<u8>, ExportError>)
        ensures
            r is Ok,
            r matches Ok(b) ==> b@ == csv_encoding(export_table(self.articles())),
    {
        to_csv(self.records.as_slice())
    }

    /// CSV text of the marked articles.
    pub fn export_selected(&self) -> (r: Result<Vec<u8>, ExportError>)
        ensures
            r is Ok,
            r matches Ok(b) ==> b@ == csv_encoding(
                export_table(self.articles().filter(|a: Article| is_marked(self.marked(), a))),
            ),
    {
        let chosen = self.selected_records();
        to_csv(chosen.as_slice())
    }
}

} // verus!
