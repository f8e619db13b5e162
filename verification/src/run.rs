//! The run over the requested languages, as steps: what to do next, given
//! what just happened. The caller fetches and stores; the rules are here.

use crate::batch::{
    enrichments, failures, get_sts_single_language, page_views, successes, LanguageOutput,
};
use crate::dataset::{dataset_bytes, dataset_name};
use crate::record::{CrawlError, ErrorView, RecordView, StSRecord};
use crate::url::{request_address, request_url};
use vstd::prelude::*;

verus! {

/// What happened last.
#[derive(Debug)]
pub enum Event {
    /// The records were loaded and the run begins.
    Started,
    /// The pages for the language with index `lang` were fetched: one for
    /// each record, in the records' order.
    Fetched { lang: usize, pages: Vec<Result<String, String>> },
    /// The output dataset of the language with index `lang` was stored, or
    /// could not be, for the reason given.
    Stored { lang: usize, failure: Option<String> },
}

/// What to do next.
#[derive(Debug)]
pub enum Action {
    /// Fetch these addresses for the language with index `lang`.
    Fetch { lang: usize, urls: Vec<String> },
    /// Store the output dataset of the language with index `lang`,
    /// replacing what the file held.
    Store { lang: usize, output: LanguageOutput },
    /// Every language is done.
    Finish,
    /// The run fails; no further language is attempted.
    Abort(CrawlError),
}

/// The addresses to fetch for the records and a language, in the records'
/// order.
pub open spec fn request_addresses(records: Seq<RecordView>, lang: Seq<char>) -> Seq<Seq<char>> {
    Seq::new(records.len(), |i: int| request_address(records[i].href, lang))
}

/// The event fits the run: it names a requested language and, where it
/// brings pages, one for each record.
pub open spec fn fits(event: Event, records: Seq<RecordView>, langs: Seq<Seq<char>>) -> bool {
    match event {
        Event::Started => true,
        Event::Fetched { lang, pages } => lang < langs.len() && pages.len() == records.len(),
        Event::Stored { lang, failure } => lang < langs.len(),
    }
}

/// `action` turns to the language with index `lang`: it fetches that
/// language's addresses or, where no language is left, finishes the run.
pub open spec fn turns_to(
    action: Action,
    records: Seq<RecordView>,
    langs: Seq<Seq<char>>,
    lang: int,
) -> bool {
    if 0 <= lang < langs.len() {
        match action {
            Action::Fetch { lang: l, urls } => l == lang && urls.deep_view() == request_addresses(
                records,
                langs[lang],
            ),
            _ => false,
        }
    } else {
        action is Finish
    }
}

/// `action` closes the batch of one language: it stores the dataset of the
/// successes with the two counts, or aborts where no dataset can be written.
pub open spec fn closes_batch(
    action: Action,
    records: Seq<RecordView>,
    langs: Seq<Seq<char>>,
    lang: int,
    pages: Seq<Result<Seq<char>, Seq<char>>>,
) -> bool {
    let rows = successes(enrichments(records, langs[lang], pages));
    match dataset_bytes(rows) {
        Some(bytes) => match action {
            Action::Store { lang: l, output } => {
                &&& l == lang
                &&& output.content@ == bytes
                &&& output.file_name@ == dataset_name(langs[lang])
                &&& output.successful == rows.len()
                &&& output.failed == failures(enrichments(records, langs[lang], pages))
            },
            _ => false,
        },
        None => action matches Action::Abort(e) && e is Io,
    }
}

/// The addresses to fetch for the records and a language, in the records'
/// order.
pub fn request_urls(records: &Vec<StSRecord>, lang: &str) -> (urls: Vec<String>)
    ensures
        urls.deep_view() == request_addresses(records.deep_view(), lang@),
{
    let mut urls: Vec<String> = Vec::new();
    let mut i: usize = 0;
    while i < records.len()
        invariant
            i <= records.len(),
            urls.len() == i,
            forall|k: int|
                0 <= k < i ==> (#[trigger] urls[k])@ == request_address(records[k]@.href, lang@),
        decreases records.len() - i,
    {
        let url = request_url(records[i].href.as_str(), lang);
        urls.push(url);
        i += 1;
    }
    assert(urls.deep_view() =~= request_addresses(records.deep_view(), lang@));
    urls
}

/// Turns to the language with index `lang`, or finishes.
fn turn_to(records: &Vec<StSRecord>, langs: &Vec<String>, lang: usize) -> (action: Action)
    ensures
        turns_to(action, records.deep_view(), langs.deep_view(), lang as int),
{
    if lang < langs.len() {
        assert(langs.deep_view()[lang as int] == langs[lang as int]@);
        Action::Fetch { lang, urls: request_urls(records, langs[lang].as_str()) }
    } else {
        Action::Finish
    }
}

/// Decides the next step of a run over `langs`, in their order. The run
/// starts with the first language; fetched pages close that language's
/// batch; a stored dataset turns the run to the next language; a dataset
/// that cannot be written or stored aborts the run.
pub fn next_action(records: &Vec<StSRecord>, langs: &Vec<String>, event: Event) -> (action: Action)
    requires
        fits(event, records.deep_view(), langs.deep_view()),
    ensures
        match event {
            Event::Started => turns_to(action, records.deep_view(), langs.deep_view(), 0),
            Event::Fetched { lang, pages } => closes_batch(
                action,
                records.deep_view(),
                langs.deep_view(),
                lang as int,
                page_views(pages@),
            ),
            Event::Stored { lang, failure: None } => turns_to(
                action,
                records.deep_view(),
                langs.deep_view(),
                lang + 1,
            ),
            Event::Stored { lang, failure: Some(reason) } => action matches Action::Abort(e)
                && e@ == ErrorView::Io(reason@),
        },
{
    match event {
        Event::Started => turn_to(records, langs, 0),
        Event::Fetched { lang, pages } => {
            assert(langs.deep_view()[lang as int] == langs[lang as int]@);
            match get_sts_single_language(records, langs[lang].as_str(), &pages) {
                Ok(output) => Action::Store { lang, output },
                Err(e) => Action::Abort(e),
            }
        },
        Event::Stored { lang, failure } => match failure {
            None => {
                assert(langs.deep_view().len() == langs.len());
                turn_to(records, langs, lang + 1)
            },
            Some(reason) => Action::Abort(CrawlError::Io(reason)),
        },
    }
}

} // verus!
