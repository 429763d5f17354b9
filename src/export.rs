use vstd::prelude::*;
use crate::article::{Article, Column, rendered};
use crate::text::{int_text, lemma_int_text_injective};

verus! {

/// A CSV writer over an in-memory buffer. Verus refuses a declaration of
/// `csv::Writer` itself (its parameter is bound by `std::io::Write`), so the
/// writer is held here, out of Verus's sight.
#[verifier::external_body]
pub struct CsvSink {
    writer: csv::Writer<Vec<u8>>,
}

/// `csv::Error`, opaque here; it is only passed on.
#[verifier::external_type_specification]
#[verifier::external_body]
pub struct ExCsvError(csv::Error);

/// The records a CSV writer has been handed, each a sequence of fields.
pub uninterp spec fn csv_records(w: CsvSink) -> Seq<Seq<Seq<char>>>;

/// The writer was made by `csv::Writer::from_writer` over an empty buffer,
/// with the default settings, and every write to it succeeded.
pub uninterp spec fn csv_plain(w: CsvSink) -> bool;

/// The bytes `csv::Writer::into_inner` hands back from a plain writer that
/// was given `records`.
pub uninterp spec fn csv_encoding(records: Seq<Seq<Seq<char>>>) -> Seq<u8>;

/// Relies on `csv::Writer::from_writer`: a writer with the default settings
/// over the given empty buffer, that has written nothing yet.
#[verifier::external_body]
fn csv_writer() -> (w: CsvSink)
    ensures
        csv_plain(w),
        csv_records(w) == Seq::<Seq<Seq<char>>>::empty(),
{
    CsvSink { writer: csv::Writer::from_writer(Vec::new()) }
}

/// Relies on `csv::Writer::write_record`: on success the fields are written
/// as one more record. Over an in-memory buffer it fails only when the
/// number of fields differs from that of the first record (the default
/// writer is not flexible).
#[verifier::external_body]
fn csv_write_record(w: &mut CsvSink, fields: &Vec<String>) -> (r: Result<(), csv::Error>)
    ensures
        csv_plain(*final(w)) == (csv_plain(*old(w)) && r is Ok),
        csv_plain(*old(w)) && fields@.len() > 0 && (csv_records(*old(w)).len() == 0
            || csv_records(*old(w))[0].len() == fields@.len()) ==> r is Ok,
        r is Ok ==> csv_records(*final(w)) == csv_records(*old(w)).push(
            fields@.map_values(|f: String| f@),
        ),
{
    w.writer.write_record(fields)
}

/// Relies on `csv::Writer::into_inner`: it flushes the writer and hands back
/// its buffer, which then holds the CSV text of every record written;
/// flushing into an in-memory buffer does not fail.
#[verifier::external_body]
fn csv_into_bytes(w: CsvSink) -> (r: Result<Vec<u8>, String>)
    requires
        csv_plain(w),
    ensures
        r is Ok,
        r matches Ok(b) ==> b@ == csv_encoding(csv_records(w)),
{
    w.writer.into_inner().map_err(|e| e.to_string())
}

/// Why an export failed.
#[derive(Debug)]
pub enum ExportError {
    /// The CSV writer refused a record.
    Csv(csv::Error),
    /// The CSV writer could not hand back its buffer.
    CsvIntoInner(String),
}

/// The header row: the column headers in display order.
pub open spec fn header_row() -> Seq<Seq<char>> {
    Column::all().map_values(|c: Column| c.header_spec())
}

/// The data row of one article: its text in each column, in display order.
pub open spec fn export_row(a: Article) -> Seq<Seq<char>> {
    Column::all().map_values(|c: Column| rendered(a, c))
}

/// The rows an export writes: the header row, then one row per article.
pub open spec fn export_table(articles: Seq<Article>) -> Seq<Seq<Seq<char>>> {
    seq![header_row()] + articles.map_values(|a: Article| export_row(a))
}

fn row_strings(a: &Article) -> (r: Vec<String>)
    ensures
        r@.map_values(|f: String| f@) == export_row(*a),
        r@.len() == 8,
{
    let mut r: Vec<String> = Vec::new();
    r.push(a.render(Column::Doi));
    r.push(a.render(Column::Title));
    r.push(a.render(Column::FirstAuthor));
    r.push(a.render(Column::Summary));
    r.push(a.render(Column::YearPublished));
    r.push(a.render(Column::Citations));
    r.push(a.render(Column::Score));
    r.push(a.render(Column::Journal));
    assert(r@.map_values(|f: String| f@) =~= export_row(*a));
    r
}

fn header_strings() -> (r: Vec<String>)
    ensures
        r@.map_values(|f: String| f@) == header_row(),
        r@.len() == 8,
{
    let mut r: Vec<String> = Vec::new();
    r.push(Column::Doi.header().to_owned());
    r.push(Column::Title.header().to_owned());
    r.push(Column::FirstAuthor.header().to_owned());
    r.push(Column::Summary.header().to_owned());
    r.push(Column::YearPublished.header().to_owned());
    r.push(Column::Citations.header().to_owned());
    r.push(Column::Score.header().to_owned());
    r.push(Column::Journal.header().to_owned());
    assert(r@.map_values(|f: String| f@) =~= header_row());
    r
}

/// The CSV text of `articles`: a header row, then one row per article with
/// its text in each column (an absent field gives an empty cell). Writing
/// into memory always succeeds.
pub fn to_csv(articles: &[Article]) -> (r: Result<Vec<u8>, ExportError>)
    ensures
        r is Ok,
        r matches Ok(b) ==> b@ == csv_encoding(export_table(articles@)),
{
    let mut w = csv_writer();
    let header = header_strings();
    match csv_write_record(&mut w, &header) {
        Ok(()) => {},
        Err(e) => {
            return Err(ExportError::Csv(e));
        },
    }
    proof {
        assert(csv_records(w) =~= export_table(articles@.subrange(0, 0)));
        assert(csv_records(w)[0] == header@.map_values(|f: String| f@));
    }
    let mut i: usize = 0;
    while i < articles.len()
        invariant
            i <= articles@.len(),
            csv_plain(w),
            csv_records(w) == export_table(articles@.subrange(0, i as int)),
            csv_records(w).len() > 0 && csv_records(w)[0].len() == 8,
        decreases articles@.len() - i,
    {
        match csv_write_record(&mut w, &row_strings(&articles[i])) {
            Ok(()) => {},
            Err(e) => {
                return Err(ExportError::Csv(e));
            },
        }
        proof {
            assert(export_table(articles@.subrange(0, i + 1)) =~= export_table(
                articles@.subrange(0, i as int),
            ).push(export_row(articles@[i as int])));
        }
        i = i + 1;
    }
    proof {
        assert(articles@.subrange(0, articles@.len() as int) =~= articles@);
    }
    match csv_into_bytes(w) {
        Ok(b) => Ok(b),
        Err(msg) => Err(ExportError::CsvIntoInner(msg)),
    }
}

/// What an export writes: a header row, then row `i + 1` for article `i`,
/// whose cells hold the article's text in each column in display order.
/// A present text field is written as it is and a present number as its
/// decimal text, from which the number is recovered exactly; an absent
/// field is an empty cell.
pub proof fn lemma_export_rows(articles: Seq<Article>, i: int)
    requires
        0 <= i < articles.len(),
    ensures
        export_table(articles).len() == articles.len() + 1,
        export_table(articles)[0] == header_row(),
        export_table(articles)[i + 1].len() == Column::all().len(),
        forall|k: int| 0 <= k < Column::all().len() ==>
            #[trigger] export_table(articles)[i + 1][k] == rendered(articles[i], Column::all()[k]),
        articles[i].doi matches Some(t) ==> export_table(articles)[i + 1][0] == t@,
        articles[i].title matches Some(t) ==> export_table(articles)[i + 1][1] == t@,
        articles[i].first_author matches Some(t) ==> export_table(articles)[i + 1][2] == t@,
        articles[i].summary matches Some(t) ==> export_table(articles)[i + 1][3] == t@,
        articles[i].journal matches Some(t) ==> export_table(articles)[i + 1][7] == t@,
        forall|v: i32| #![trigger int_text(v as int)]
            articles[i].year_published == Some(v) ==> (export_table(articles)[i + 1][4] == int_text(v as int)
                && forall|w: int| int_text(w) == export_table(articles)[i + 1][4] ==> w == v),
        forall|v: i32| #![trigger int_text(v as int)]
            articles[i].citations == Some(v) ==> (export_table(articles)[i + 1][5] == int_text(v as int)
                && forall|w: int| int_text(w) == export_table(articles)[i + 1][5] ==> w == v),
        forall|v: i32| #![trigger int_text(v as int)]
            articles[i].score == Some(v) ==> (export_table(articles)[i + 1][6] == int_text(v as int)
                && forall|w: int| int_text(w) == export_table(articles)[i + 1][6] ==> w == v),
{
    let row = export_table(articles)[i + 1];
    assert(row == export_row(articles[i]));
    assert forall|w: int, v: int| int_text(w) == int_text(v) implies w == v by {
        lemma_int_text_injective(w, v);
    }
}

} // verus!
