//! From a fetched page to an enriched record.

use crate::record::{outcome_view, page_view, CrawlError, ErrorView, RecordView, StSRecord};
use crate::url::{derive_href, localized};
use vstd::prelude::*;
use vstd::string::*;

verus! {

/// For the elements of the document `html` that match the CSS selector
/// `selector`, in document order, the value of each one's attribute `attr`;
/// `None` where `selector` is no valid selector.
pub uninterp spec fn selected_attributes(
    html: Seq<char>,
    selector: Seq<char>,
    attr: Seq<char>,
) -> Option<Seq<Option<Seq<char>>>>;

/// Parses `html` with `scraper::Html::parse_document`, parses `selector` with
/// `scraper::Selector::parse` and walks `Html::select`, reading `attr` from
/// each matching element. The contract only gives that result its name:
/// nothing is proved of how a document is parsed or matched.
#[verifier::external_body]
fn select_attributes(html: &str, selector: &str, attr: &str) -> (found: Option<Vec<Option<String>>>)
    ensures
        found.deep_view() == selected_attributes(html@, selector@, attr@),
{
    let parsed = match scraper::Selector::parse(selector) {
        Ok(parsed) => parsed,
        Err(_) => return None,
    };
    let document = scraper::Html::parse_document(html);
    Some(document.select(&parsed).map(|e| e.value().attr(attr).map(|v| v.to_string())).collect())
}

/// The source of the first selected element, where there is such an element
/// and it has a source.
pub open spec fn first_source(found: Option<Seq<Option<Seq<char>>>>) -> Option<Seq<char>> {
    match found {
        Some(sources) => if sources.len() > 0 {
            sources[0]
        } else {
            None
        },
        None => None,
    }
}

/// The derived record of a language: the record with its path rewritten.
pub open spec fn derived(record: RecordView, lang: Seq<char>) -> RecordView {
    RecordView {
        href: localized(record.href, lang),
        video: record.video,
        gloss: record.gloss,
        category: record.category,
    }
}

/// The record that a page yields for `lang`: the derived record with the
/// first video's source, or the failure to find one.
pub open spec fn enriched(
    record: RecordView,
    lang: Seq<char>,
    found: Option<Seq<Option<Seq<char>>>>,
) -> Result<RecordView, ErrorView> {
    match first_source(found) {
        Some(video) => Ok(
            RecordView {
                href: derived(record, lang).href,
                video,
                gloss: derived(record, lang).gloss,
                category: derived(record, lang).category,
            },
        ),
        None => Err(ErrorView::Extraction { gloss: record.gloss, lang }),
    }
}

/// The outcome for one record, given what fetching its page returned.
pub open spec fn enrichment(
    record: RecordView,
    lang: Seq<char>,
    page: Result<Seq<char>, Seq<char>>,
) -> Result<RecordView, ErrorView> {
    match page {
        Ok(html) => enriched(record, lang, selected_attributes(html, "video"@, "src"@)),
        Err(reason) => Err(ErrorView::Fetch(reason)),
    }
}

/// Derives the record of a language: a new record with the path rewritten;
/// the record itself is left as it is.
pub fn derive(record: &StSRecord, lang: &str) -> (copy: StSRecord)
    ensures
        copy@ == derived(record@, lang@),
{
    StSRecord {
        href: derive_href(record.href.as_str(), lang),
        video: record.video.clone(),
        gloss: record.gloss.clone(),
        category: record.category.clone(),
    }
}

/// Picks the source of the first video among the sources read from a page.
pub fn first_video_source(found: &Option<Vec<Option<String>>>) -> (src: Option<String>)
    ensures
        src.deep_view() == first_source(found.deep_view()),
{
    match found {
        Some(sources) => {
            if sources.len() > 0 {
                match &sources[0] {
                    Some(s) => Some(s.clone()),
                    None => None,
                }
            } else {
                None
            }
        },
        None => None,
    }
}

/// Builds the enriched record for `lang` from the video sources of its page.
pub fn record_with_video(
    record: &StSRecord,
    lang: &str,
    found: &Option<Vec<Option<String>>>,
) -> (outcome: Result<StSRecord, CrawlError>)
    ensures
        outcome_view(outcome) == enriched(record@, lang@, found.deep_view()),
{
    match first_video_source(found) {
        Some(video) => {
            let mut found = derive(record, lang);
            found.video = video;
            Ok(found)
        },
        None => Err(
            CrawlError::Extraction { gloss: record.gloss.clone(), lang: String::from_str(lang) },
        ),
    }
}

/// Enriches one record for `lang` from what fetching its page returned: the
/// body of the page, or the reason why there is none.
pub fn extract_record_video(
    record: &StSRecord,
    lang: &str,
    page: &Result<String, String>,
) -> (outcome: Result<StSRecord, CrawlError>)
    ensures
        outcome_view(outcome) == enrichment(record@, lang@, page_view(*page)),
{
    match page {
        Ok(html) => {
            let found = select_attributes(html.as_str(), "video", "src");
            record_with_video(record, lang, &found)
        },
        Err(reason) => Err(CrawlError::Fetch(reason.clone())),
    }
}

} // verus!
