//! One language's batch: chunks of work, their outcomes in the records'
//! order, the tally and the output dataset.

use crate::dataset::{dataset_bytes, dataset_name, encode_dataset, output_name};
use crate::page::{enrichment, extract_record_video, selected_attributes};
use crate::record::{outcome_view, page_view, CrawlError, ErrorView, RecordView, StSRecord};
use vstd::prelude::*;

verus! {

/// How many records one unit of parallel work holds.
pub const CHUNK_SIZE: usize = 10;

/// Where the chunk with index `i` ends among `n` records cut into chunks of
/// `size`.
pub open spec fn chunk_end(i: int, size: int, n: int) -> int {
    if (i + 1) * size < n {
        (i + 1) * size
    } else {
        n
    }
}

/// The chunks one after the other.
pub open spec fn concat_all<T>(chunks: Seq<Seq<T>>) -> Seq<T>
    decreases chunks.len(),
{
    if chunks.len() == 0 {
        Seq::empty()
    } else {
        concat_all(chunks.drop_last()) + chunks.last()
    }
}

/// The records of the successful outcomes, in the outcomes' order.
pub open spec fn successes(outcomes: Seq<Result<RecordView, ErrorView>>) -> Seq<RecordView>
    decreases outcomes.len(),
{
    if outcomes.len() == 0 {
        Seq::empty()
    } else {
        match outcomes.last() {
            Ok(record) => successes(outcomes.drop_last()).push(record),
            Err(_) => successes(outcomes.drop_last()),
        }
    }
}

/// How many of the outcomes are failures.
pub open spec fn failures(outcomes: Seq<Result<RecordView, ErrorView>>) -> nat
    decreases outcomes.len(),
{
    if outcomes.len() == 0 {
        0
    } else {
        match outcomes.last() {
            Ok(_) => failures(outcomes.drop_last()),
            Err(_) => failures(outcomes.drop_last()) + 1,
        }
    }
}

/// The outcomes as character sequences.
pub open spec fn outcome_views(outcomes: Seq<Result<StSRecord, CrawlError>>) -> Seq<
    Result<RecordView, ErrorView>,
> {
    Seq::new(outcomes.len(), |i: int| outcome_view(outcomes[i]))
}

/// The fetched pages as character sequences.
pub open spec fn page_views(pages: Seq<Result<String, String>>) -> Seq<
    Result<Seq<char>, Seq<char>>,
> {
    Seq::new(pages.len(), |i: int| page_view(pages[i]))
}

/// The chunks of fetched pages as character sequences.
pub open spec fn chunk_views(chunks: Seq<Vec<Result<String, String>>>) -> Seq<
    Seq<Result<Seq<char>, Seq<char>>>,
> {
    Seq::new(chunks.len(), |i: int| page_views(chunks[i]@))
}

/// The outcome of each record, given the page fetched for it.
pub open spec fn enrichments(
    records: Seq<RecordView>,
    lang: Seq<char>,
    pages: Seq<Result<Seq<char>, Seq<char>>>,
) -> Seq<Result<RecordView, ErrorView>> {
    Seq::new(records.len(), |i: int| enrichment(records[i], lang, pages[i]))
}

/// Every outcome is counted once: as a success or as a failure.
pub proof fn tally_is_complete(outcomes: Seq<Result<RecordView, ErrorView>>)
    ensures
        successes(outcomes).len() + failures(outcomes) == outcomes.len(),
    decreases outcomes.len(),
{
    if outcomes.len() > 0 {
        tally_is_complete(outcomes.drop_last());
    }
}

/// A further failure adds one to the failures and nothing to the rows.
pub proof fn failure_adds_no_row(outcomes: Seq<Result<RecordView, ErrorView>>, e: ErrorView)
    ensures
        successes(outcomes.push(Err(e))) == successes(outcomes),
        failures(outcomes.push(Err(e))) == failures(outcomes) + 1,
{
    assert(outcomes.push(Err(e)).drop_last() =~= outcomes);
}

/// A further success adds its record as the last row and no failure.
pub proof fn success_adds_last_row(outcomes: Seq<Result<RecordView, ErrorView>>, r: RecordView)
    ensures
        successes(outcomes.push(Ok(r))) == successes(outcomes).push(r),
        failures(outcomes.push(Ok(r))) == failures(outcomes),
{
    assert(outcomes.push(Ok(r)).drop_last() =~= outcomes);
}

/// The rows of outcomes that follow other outcomes follow the others' rows,
/// and the failures add up: the order of the rows is that of the outcomes.
pub proof fn successes_of_concat(
    a: Seq<Result<RecordView, ErrorView>>,
    b: Seq<Result<RecordView, ErrorView>>,
)
    ensures
        successes(a + b) == successes(a) + successes(b),
        failures(a + b) == failures(a) + failures(b),
    decreases b.len(),
{
    if b.len() == 0 {
        assert(a + b =~= a);
        assert(successes(a) + successes(b) =~= successes(a));
    } else {
        assert((a + b).drop_last() =~= a + b.drop_last());
        assert((a + b).last() == b.last());
        successes_of_concat(a, b.drop_last());
        match b.last() {
            Ok(r) => {
                assert(successes(a + b) =~= successes(a) + successes(b));
            },
            Err(_) => {},
        }
    }
}

/// Where among the outcomes the success stands that gives row `k`.
pub open spec fn origin(outcomes: Seq<Result<RecordView, ErrorView>>, k: int) -> int
    decreases outcomes.len(),
{
    if outcomes.len() == 0 {
        0
    } else if outcomes.last() is Ok && k == successes(outcomes.drop_last()).len() {
        outcomes.len() - 1
    } else {
        origin(outcomes.drop_last(), k)
    }
}

/// Every row is the record of a successful outcome.
pub proof fn row_comes_from_outcome(outcomes: Seq<Result<RecordView, ErrorView>>, k: int)
    requires
        0 <= k < successes(outcomes).len(),
    ensures
        0 <= origin(outcomes, k) < outcomes.len(),
        outcomes[origin(outcomes, k)] == Ok::<RecordView, ErrorView>(successes(outcomes)[k]),
    decreases outcomes.len(),
{
    let before = outcomes.drop_last();
    if !(outcomes.last() is Ok && k == successes(before).len()) {
        row_comes_from_outcome(before, k);
    }
}

/// The rows stand in the order of the outcomes that they come from.
pub proof fn rows_keep_order(outcomes: Seq<Result<RecordView, ErrorView>>, i: int, j: int)
    requires
        0 <= i < j < successes(outcomes).len(),
    ensures
        origin(outcomes, i) < origin(outcomes, j),
    decreases outcomes.len(),
{
    let before = outcomes.drop_last();
    if outcomes.last() is Ok && j == successes(before).len() {
        row_comes_from_outcome(before, i);
    } else {
        rows_keep_order(before, i, j);
    }
}

/// A page without a video element makes its record a failure.
pub proof fn page_without_video_fails(record: RecordView, lang: Seq<char>, html: Seq<char>)
    requires
        selected_attributes(html, "video"@, "src"@) == Some(Seq::<Option<Seq<char>>>::empty()),
    ensures
        enrichment(record, lang, Ok(html)) == Err::<RecordView, ErrorView>(
            ErrorView::Extraction { gloss: record.gloss, lang },
        ),
{
}

/// Cuts `n` records into chunks of `size`: the bounds of each chunk, first
/// inclusive and last exclusive, in order. Every chunk is full but, where
/// `size` does not divide `n`, the last.
pub fn chunk_ranges(n: usize, size: usize) -> (ranges: Vec<(usize, usize)>)
    requires
        size > 0,
    ensures
        ranges.len() == 0 <==> n == 0,
        n > 0 ==> ranges[ranges.len() - 1].1 == n,
        forall|i: int|
            0 <= i < ranges.len() ==> {
                &&& (#[trigger] ranges[i]).0 == i * size
                &&& ranges[i].1 == chunk_end(i, size as int, n as int)
                &&& ranges[i].0 < ranges[i].1
            },
{
    let mut ranges: Vec<(usize, usize)> = Vec::new();
    let mut start: usize = 0;
    assert(ranges.len() * size == 0) by (nonlinear_arith)
        requires
            ranges.len() == 0,
    ;
    while start < n
        invariant
            size > 0,
            start <= n,
            start == n || start == ranges.len() * size,
            ranges.len() == 0 <==> start == 0,
            start > 0 ==> ranges[ranges.len() - 1].1 == start,
            forall|i: int|
                0 <= i < ranges.len() ==> {
                    &&& (#[trigger] ranges[i]).0 == i * size
                    &&& ranges[i].1 == chunk_end(i, size as int, n as int)
                    &&& ranges[i].0 < ranges[i].1
                },
        decreases n - start,
    {
        let end: usize = if n - start <= size {
            n
        } else {
            start + size
        };
        proof {
            let k = ranges.len() as int;
            assert((k + 1) * size == k * size + size) by (nonlinear_arith);
        }
        ranges.push((start, end));
        start = end;
    }
    ranges
}

/// A copy of what fetching a page returned.
fn copy_page(page: &Result<String, String>) -> (copy: Result<String, String>)
    ensures
        page_view(copy) == page_view(*page),
{
    match page {
        Ok(body) => Ok(body.clone()),
        Err(reason) => Err(reason.clone()),
    }
}

/// Puts the pages fetched chunk by chunk back into one sequence, in the order
/// of the chunks and, within a chunk, in the chunk's order.
pub fn merge_chunks(chunks: &Vec<Vec<Result<String, String>>>) -> (merged: Vec<Result<String, String>>)
    ensures
        page_views(merged@) == concat_all(chunk_views(chunks@)),
{
    let ghost all = chunk_views(chunks@);
    let mut merged: Vec<Result<String, String>> = Vec::new();
    let mut i: usize = 0;
    assert(page_views(merged@) =~= concat_all(all.take(0)));
    while i < chunks.len()
        invariant
            i <= chunks.len(),
            all == chunk_views(chunks@),
            page_views(merged@) == concat_all(all.take(i as int)),
        decreases chunks.len() - i,
    {
        let chunk = &chunks[i];
        let ghost before = page_views(merged@);
        let mut j: usize = 0;
        assert(before + all[i as int].take(0) =~= before);
        while j < chunk.len()
            invariant
                j <= chunk.len(),
                all[i as int] == page_views(chunk@),
                page_views(merged@) == before + all[i as int].take(j as int),
            decreases chunk.len() - j,
        {
            let ghost so_far = page_views(merged@);
            let page = copy_page(&chunk[j]);
            merged.push(page);
            assert(page_views(merged@) =~= so_far.push(page_view(page)));
            assert(all[i as int].take(j + 1) =~= all[i as int].take(j as int).push(
                page_view(chunk[j as int]),
            ));
            assert(so_far.push(page_view(page)) =~= before + all[i as int].take(j + 1));
            j += 1;
        }
        assert(all[i as int].take(chunk.len() as int) =~= all[i as int]);
        assert(all.take(i + 1).drop_last() =~= all.take(i as int));
        i += 1;
    }
    assert(all.take(chunks.len() as int) =~= all);
    merged
}

/// Enriches every record for `lang` from the page fetched for it; the
/// outcomes stand in the records' order.
pub fn enrich_all(
    records: &Vec<StSRecord>,
    lang: &str,
    pages: &Vec<Result<String, String>>,
) -> (outcomes: Vec<Result<StSRecord, CrawlError>>)
    requires
        pages.len() == records.len(),
    ensures
        outcome_views(outcomes@) == enrichments(records.deep_view(), lang@, page_views(pages@)),
{
    let mut outcomes: Vec<Result<StSRecord, CrawlError>> = Vec::new();
    let mut i: usize = 0;
    while i < records.len()
        invariant
            i <= records.len(),
            pages.len() == records.len(),
            outcomes.len() == i,
            forall|k: int|
                0 <= k < i ==> outcome_view(#[trigger] outcomes[k]) == enrichment(
                    records[k]@,
                    lang@,
                    page_view(pages[k]),
                ),
        decreases records.len() - i,
    {
        let outcome = extract_record_video(&records[i], lang, &pages[i]);
        outcomes.push(outcome);
        i += 1;
    }
    assert(outcome_views(outcomes@) =~= enrichments(
        records.deep_view(),
        lang@,
        page_views(pages@),
    ));
    outcomes
}

/// The successful records of a batch and the two counts.
#[derive(Debug)]
pub struct Tally {
    /// The enriched records, in the order of the outcomes.
    pub rows: Vec<StSRecord>,
    /// How many outcomes were successes.
    pub successful: usize,
    /// How many outcomes were failures.
    pub failed: usize,
}

/// Counts successes and failures over the whole batch and keeps the records
/// of the successes, in the outcomes' order.
pub fn tally(outcomes: &Vec<Result<StSRecord, CrawlError>>) -> (count: Tally)
    ensures
        count.rows.deep_view() == successes(outcome_views(outcomes@)),
        count.successful == successes(outcome_views(outcomes@)).len(),
        count.failed == failures(outcome_views(outcomes@)),
        count.successful + count.failed == outcomes.len(),
{
    let ghost all = outcome_views(outcomes@);
    let mut rows: Vec<StSRecord> = Vec::new();
    let mut failed: usize = 0;
    let mut i: usize = 0;
    assert(rows.deep_view() =~= successes(all.take(0)));
    while i < outcomes.len()
        invariant
            i <= outcomes.len(),
            all == outcome_views(outcomes@),
            rows.deep_view() == successes(all.take(i as int)),
            failed == failures(all.take(i as int)),
            rows.len() + failed == i,
        decreases outcomes.len() - i,
    {
        proof {
            assert(all.take(i + 1).drop_last() =~= all.take(i as int));
            assert(all.take(i + 1).last() == outcome_view(outcomes[i as int]));
        }
        match &outcomes[i] {
            Ok(record) => {
                let ghost before = rows.deep_view();
                rows.push(record.duplicate());
                assert(rows.deep_view() =~= before.push(record@));
            },
            Err(_) => {
                failed += 1;
            },
        }
        i += 1;
    }
    assert(all.take(outcomes.len() as int) =~= all);
    let successful: usize = rows.len();
    Tally { rows, successful, failed }
}

/// What one language's batch leaves behind.
#[derive(Debug)]
pub struct LanguageOutput {
    /// The name of the output dataset.
    pub file_name: String,
    /// The bytes of the output dataset, which replace what the file held.
    pub content: Vec<u8>,
    /// How many records were enriched.
    pub successful: usize,
    /// How many records failed.
    pub failed: usize,
}

/// Processes one language, given the page fetched for each record: enriches
/// the records, tallies the outcomes and writes the output dataset of the
/// successes, in the records' order, as bytes. Failures of single records
/// are counted; only a dataset that cannot be written fails the batch.
pub fn get_sts_single_language(
    records: &Vec<StSRecord>,
    lang: &str,
    pages: &Vec<Result<String, String>>,
) -> (output: Result<LanguageOutput, CrawlError>)
    requires
        pages.len() == records.len(),
    ensures
        match output {
            Ok(out) => {
                let outcomes = enrichments(records.deep_view(), lang@, page_views(pages@));
                &&& dataset_bytes(successes(outcomes)) == Some(out.content@)
                &&& out.file_name@ == dataset_name(lang@)
                &&& out.successful == successes(outcomes).len()
                &&& out.failed == failures(outcomes)
                &&& out.successful + out.failed == records.len()
            },
            Err(e) => {
                let outcomes = enrichments(records.deep_view(), lang@, page_views(pages@));
                dataset_bytes(successes(outcomes)) is None && e is Io
            },
        },
{
    let outcomes = enrich_all(records, lang, pages);
    let count = tally(&outcomes);
    match encode_dataset(&count.rows) {
        Ok(content) => Ok(
            LanguageOutput {
                file_name: output_name(lang),
                content,
                successful: count.successful,
                failed: count.failed,
            },
        ),
        Err(e) => Err(e),
    }
}

} // verus!
