//! Datasets as bytes: comma-delimited text with a header row and the columns
//! `href`, `video`, `gloss`, `category`.

use crate::record::{CrawlError, RecordView, StSRecord};
use crate::text::matches_at;
use vstd::prelude::*;
use vstd::string::*;

verus! {

/// The error of the CSV reader and writer.
#[verifier::external_type_specification]
#[verifier::external_body]
pub struct ExCsvError(csv::Error);

/// The rows that a CSV reader with the given delimiter, reading every row as
/// data and asking for rows of one length, finds in `bytes`; `None` where it
/// reports an error.
pub uninterp spec fn csv_rows(bytes: Seq<u8>, delimiter: u8) -> Option<Seq<Seq<Seq<char>>>>;

/// The bytes that a CSV writer emits for one row of fields; `None` where it
/// reports an error.
pub uninterp spec fn csv_line(fields: Seq<Seq<char>>) -> Option<Seq<u8>>;

/// Reads all rows of `bytes` with `csv::Reader::records`, on a reader built by
/// `csv::ReaderBuilder` with the given delimiter and without header handling.
/// The contract only names the rows, or says that the reader failed.
#[verifier::external_body]
fn read_rows(bytes: &[u8], delimiter: u8) -> (rows: Result<Vec<Vec<String>>, csv::Error>)
    ensures
        match rows {
            Ok(found) => csv_rows(bytes@, delimiter) == Some(found.deep_view()),
            Err(_) => csv_rows(bytes@, delimiter) is None,
        },
{
    let mut reader = csv::ReaderBuilder::new().delimiter(delimiter).has_headers(false).from_reader(
        bytes,
    );
    reader.records().map(|row| row.map(|fields| fields.iter().map(|f| f.to_string()).collect())).collect()
}

/// Writes one row with `csv::Writer::write_record` into a fresh in-memory
/// writer and hands back what it wrote. The contract only names those bytes,
/// or says that the writer failed.
#[verifier::external_body]
fn write_row(fields: &Vec<String>) -> (line: Result<Vec<u8>, csv::Error>)
    ensures
        match line {
            Ok(bytes) => csv_line(fields.deep_view()) == Some(bytes@),
            Err(_) => csv_line(fields.deep_view()) is None,
        },
{
    let mut writer = csv::Writer::from_writer(Vec::new());
    writer.write_record(fields)?;
    writer.flush()?;
    Ok(writer.get_ref().clone())
}

/// The text of a CSV error, as its `Display` impl gives it. Nothing is
/// claimed of the text.
#[verifier::external_body]
fn error_text(e: &csv::Error) -> (text: String) {
    e.to_string()
}

/// The header row of a dataset.
pub open spec fn header_fields() -> Seq<Seq<char>> {
    seq!["href"@, "video"@, "gloss"@, "category"@]
}

/// The row that stands for a record.
pub open spec fn row_fields(record: RecordView) -> Seq<Seq<char>> {
    seq![record.href, record.video, record.gloss, record.category]
}

/// The record that a data row stands for. The video column is not read.
pub open spec fn record_of_row(row: Seq<Seq<char>>) -> RecordView {
    RecordView { href: row[0], video: Seq::empty(), gloss: row[2], category: row[3] }
}

/// The rows start with the header and every data row has the four columns.
pub open spec fn well_formed_rows(rows: Seq<Seq<Seq<char>>>) -> bool {
    &&& rows.len() > 0
    &&& rows[0] == header_fields()
    &&& forall|i: int| 1 <= i < rows.len() ==> (#[trigger] rows[i]).len() == 4
}

/// The records of well-formed rows: one for each data row, in the rows' order.
pub open spec fn loaded(rows: Seq<Seq<Seq<char>>>) -> Seq<RecordView> {
    Seq::new((rows.len() - 1) as nat, |i: int| record_of_row(rows[i + 1]))
}

/// Well-formed rows give one record for each data row, in the rows' order.
pub proof fn loaded_follows_rows(rows: Seq<Seq<Seq<char>>>)
    requires
        well_formed_rows(rows),
    ensures
        loaded(rows).len() == rows.len() - 1,
        forall|i: int|
            0 <= i < rows.len() - 1 ==> #[trigger] loaded(rows)[i] == record_of_row(rows[i + 1]),
{
}

/// The rows of an output dataset: nothing for no records, else the header and
/// one row for each record, in the records' order.
pub open spec fn dataset_rows(records: Seq<RecordView>) -> Seq<Seq<Seq<char>>> {
    if records.len() == 0 {
        Seq::empty()
    } else {
        seq![header_fields()] + Seq::new(records.len(), |i: int| row_fields(records[i]))
    }
}

/// The lines of the rows one after the other; `None` where a row has no line.
pub open spec fn encoded_rows(rows: Seq<Seq<Seq<char>>>) -> Option<Seq<u8>>
    decreases rows.len(),
{
    if rows.len() == 0 {
        Some(Seq::empty())
    } else {
        match (encoded_rows(rows.drop_last()), csv_line(rows.last())) {
            (Some(before), Some(line)) => Some(before + line),
            _ => None,
        }
    }
}

/// Rows that extend rows without an encoding have no encoding.
pub proof fn lemma_encoded_rows_prefix(rows: Seq<Seq<Seq<char>>>, n: int)
    requires
        0 <= n <= rows.len(),
        encoded_rows(rows.take(n)) is None,
    ensures
        encoded_rows(rows) is None,
    decreases rows.len(),
{
    if n == rows.len() {
        assert(rows.take(n) =~= rows);
    } else {
        assert(rows.drop_last().take(n) =~= rows.take(n));
        lemma_encoded_rows_prefix(rows.drop_last(), n);
    }
}

/// Whether two texts are the same.
pub fn same_text(a: &str, b: &str) -> (same: bool)
    ensures
        same == (a@ == b@),
{
    let n: usize = a.unicode_len();
    if n != b.unicode_len() {
        return false;
    }
    let hit = matches_at(a, b, 0);
    proof {
        assert(a@.subrange(0, n as int) =~= a@);
    }
    hit
}

/// Whether a row is the header row.
pub fn is_header(row: &Vec<String>) -> (yes: bool)
    ensures
        yes == (row.deep_view() == header_fields()),
{
    if row.len() != 4 {
        assert(row.deep_view().len() != header_fields().len());
        return false;
    }
    let yes = same_text(row[0].as_str(), "href") && same_text(row[1].as_str(), "video")
        && same_text(row[2].as_str(), "gloss") && same_text(row[3].as_str(), "category");
    proof {
        let d = row.deep_view();
        assert(d.len() == 4);
        assert(d[0] == row[0]@ && d[1] == row[1]@ && d[2] == row[2]@ && d[3] == row[3]@);
        if yes {
            assert(d =~= header_fields());
        }
    }
    yes
}

/// Turns the rows of an input dataset, header first, into records. Fails on
/// rows that are not well formed.
pub fn records_from_rows(rows: &Vec<Vec<String>>) -> (records: Result<Vec<StSRecord>, CrawlError>)
    ensures
        match records {
            Ok(found) => well_formed_rows(rows.deep_view()) && found.deep_view() == loaded(
                rows.deep_view(),
            ),
            Err(e) => !well_formed_rows(rows.deep_view()) && e is Parse,
        },
{
    let ghost all = rows.deep_view();
    if rows.len() == 0 {
        return Err(CrawlError::Parse(String::from_str("the header row is missing")));
    }
    assert(all[0] == rows[0].deep_view());
    if !is_header(&rows[0]) {
        return Err(
            CrawlError::Parse(String::from_str("the columns are not href,video,gloss,category")),
        );
    }
    let mut found: Vec<StSRecord> = Vec::new();
    let mut i: usize = 1;
    while i < rows.len()
        invariant
            1 <= i <= rows.len(),
            all == rows.deep_view(),
            all[0] == header_fields(),
            found.len() == i - 1,
            forall|k: int| 1 <= k < i ==> (#[trigger] all[k]).len() == 4,
            forall|k: int| 0 <= k < i - 1 ==> (#[trigger] found[k])@ == record_of_row(all[k + 1]),
        decreases rows.len() - i,
    {
        let row = &rows[i];
        assert(all[i as int] == row.deep_view());
        if row.len() != 4 {
            return Err(CrawlError::Parse(String::from_str("a row has not four columns")));
        }
        let record = StSRecord {
            href: row[0].clone(),
            video: String::new(),
            gloss: row[2].clone(),
            category: row[3].clone(),
        };
        assert(record@ == record_of_row(all[i as int])) by {
            let d = row.deep_view();
            assert(d[0] == row[0]@ && d[2] == row[2]@ && d[3] == row[3]@);
        }
        found.push(record);
        i += 1;
    }
    assert(found.deep_view() =~= loaded(all));
    Ok(found)
}

/// What loading a dataset from `bytes` gives.
pub open spec fn loaded_from(bytes: Seq<u8>) -> Option<Seq<RecordView>> {
    match csv_rows(bytes, 44u8) {
        Some(rows) => if well_formed_rows(rows) {
            Some(loaded(rows))
        } else {
            None
        },
        None => None,
    }
}

/// Reads the records of an input dataset from its bytes, in the dataset's
/// order. Fails where the bytes are no comma-delimited text or the rows are
/// not well formed.
pub fn load_records(bytes: &[u8]) -> (records: Result<Vec<StSRecord>, CrawlError>)
    ensures
        match records {
            Ok(found) => loaded_from(bytes@) == Some(found.deep_view()),
            Err(e) => loaded_from(bytes@) is None && e is Parse,
        },
{
    match read_rows(bytes, 44u8) {
        Ok(rows) => records_from_rows(&rows),
        Err(e) => Err(CrawlError::Parse(error_text(&e))),
    }
}

/// The fields of a record, in the order of the columns.
pub fn fields_of(record: &StSRecord) -> (fields: Vec<String>)
    ensures
        fields.deep_view() == row_fields(record@),
{
    let mut fields: Vec<String> = Vec::new();
    fields.push(record.href.clone());
    fields.push(record.video.clone());
    fields.push(record.gloss.clone());
    fields.push(record.category.clone());
    assert(fields.deep_view() =~= row_fields(record@));
    fields
}

/// The header row.
pub fn header_row() -> (fields: Vec<String>)
    ensures
        fields.deep_view() == header_fields(),
{
    let mut fields: Vec<String> = Vec::new();
    fields.push(String::from_str("href"));
    fields.push(String::from_str("video"));
    fields.push(String::from_str("gloss"));
    fields.push(String::from_str("category"));
    assert(fields.deep_view() =~= header_fields());
    fields
}

/// What an output dataset of the records is, as bytes.
pub open spec fn dataset_bytes(records: Seq<RecordView>) -> Option<Seq<u8>> {
    encoded_rows(dataset_rows(records))
}

/// Appends the line of one row to `out`; on failure `out` is unchanged.
fn append_row(out: &mut Vec<u8>, fields: &Vec<String>) -> (done: Result<(), CrawlError>)
    ensures
        match done {
            Ok(_) => csv_line(fields.deep_view()) is Some && final(out)@ == old(out)@ + csv_line(
                fields.deep_view(),
            )->0,
            Err(e) => csv_line(fields.deep_view()) is None && e is Io && final(out)@ == old(out)@,
        },
{
    match write_row(fields) {
        Ok(mut line) => {
            out.append(&mut line);
            Ok(())
        },
        Err(e) => Err(CrawlError::Io(error_text(&e))),
    }
}

/// Writes the output dataset of the records as bytes: empty for no records,
/// else the header row and one row for each record, in the records' order.
pub fn encode_dataset(records: &Vec<StSRecord>) -> (content: Result<Vec<u8>, CrawlError>)
    ensures
        match content {
            Ok(bytes) => dataset_bytes(records.deep_view()) == Some(bytes@),
            Err(e) => dataset_bytes(records.deep_view()) is None && e is Io,
        },
{
    let ghost rows = dataset_rows(records.deep_view());
    let mut out: Vec<u8> = Vec::new();
    if records.len() == 0 {
        return Ok(out);
    }
    let header = header_row();
    assert(rows.take(1).drop_last() =~= Seq::<Seq<Seq<char>>>::empty());
    assert(rows.take(1).last() == header_fields());
    match append_row(&mut out, &header) {
        Ok(_) => {},
        Err(e) => {
            proof {
                lemma_encoded_rows_prefix(rows, 1);
            }
            return Err(e);
        },
    }
    proof {
        let none = Seq::<Seq<Seq<char>>>::empty();
        assert(encoded_rows(none) == Some(Seq::<u8>::empty()));
        assert(rows.take(1).len() == 1);
        assert(Seq::<u8>::empty() + csv_line(header_fields())->0 =~= csv_line(
            header_fields(),
        )->0);
        assert(encoded_rows(rows.take(1)) == Some(out@));
    }
    let mut i: usize = 0;
    while i < records.len()
        invariant
            i <= records.len(),
            rows == dataset_rows(records.deep_view()),
            rows.len() == records.len() + 1,
            encoded_rows(rows.take(i + 1)) == Some(out@),
        decreases records.len() - i,
    {
        let fields = fields_of(&records[i]);
        proof {
            assert(rows.take(i + 2).drop_last() =~= rows.take(i + 1));
            assert(rows.take(i + 2).last() == row_fields(records.deep_view()[i as int]));
            assert(records.deep_view()[i as int] == records[i as int]@);
        }
        match append_row(&mut out, &fields) {
            Ok(_) => {},
            Err(e) => {
                proof {
                    lemma_encoded_rows_prefix(rows, i + 2);
                }
                return Err(e);
            },
        }
        i += 1;
    }
    assert(rows.take(records.len() + 1) =~= rows);
    Ok(out)
}

/// The name of the output dataset of a language.
pub open spec fn dataset_name(lang: Seq<char>) -> Seq<char> {
    "metadata."@ + lang + ".csv"@
}

/// The name of the output dataset of a language.
pub fn output_name(lang: &str) -> (name: String)
    ensures
        name@ == dataset_name(lang@),
{
    String::from_str("metadata.").concat(lang).concat(".csv")
}

} // verus!
