//! Gloss records and the failures that the crawl can meet.

use vstd::prelude::*;
use vstd::string::*;

verus! {

/// One gloss of the dataset.
#[derive(Debug, Clone, PartialEq, Eq)]
pub struct StSRecord {
    /// Relative path of the gloss's page.
    pub href: String,
    /// Address of the video; empty until the record is enriched.
    pub video: String,
    /// Identifier of the gloss.
    pub gloss: String,
    /// Classification of the gloss.
    pub category: String,
}

/// What a record holds, as character sequences.
pub struct RecordView {
    pub href: Seq<char>,
    pub video: Seq<char>,
    pub gloss: Seq<char>,
    pub category: Seq<char>,
}

impl View for StSRecord {
    type V = RecordView;

    open spec fn view(&self) -> RecordView {
        RecordView {
            href: self.href@,
            video: self.video@,
            gloss: self.gloss@,
            category: self.category@,
        }
    }
}

impl DeepView for StSRecord {
    type V = RecordView;

    open spec fn deep_view(&self) -> RecordView {
        self@
    }
}

impl StSRecord {
    /// A copy of the record.
    pub fn duplicate(&self) -> (copy: StSRecord)
        ensures
            copy@ == self@,
    {
        StSRecord {
            href: self.href.clone(),
            video: self.video.clone(),
            gloss: self.gloss.clone(),
            category: self.category.clone(),
        }
    }
}

/// Why a run, or the enrichment of one record, failed.
#[derive(Debug, Clone, PartialEq, Eq)]
pub enum CrawlError {
    /// The HTTP client could not be built.
    Config(String),
    /// A file could not be read, created or flushed.
    Io(String),
    /// The input dataset is malformed.
    Parse(String),
    /// The page of one record could not be fetched.
    Fetch(String),
    /// The page of one record shows no video source.
    Extraction { gloss: String, lang: String },
}

/// What a failure holds, as character sequences.
pub enum ErrorView {
    Config(Seq<char>),
    Io(Seq<char>),
    Parse(Seq<char>),
    Fetch(Seq<char>),
    Extraction { gloss: Seq<char>, lang: Seq<char> },
}

impl View for CrawlError {
    type V = ErrorView;

    open spec fn view(&self) -> ErrorView {
        match self {
            CrawlError::Config(m) => ErrorView::Config(m@),
            CrawlError::Io(m) => ErrorView::Io(m@),
            CrawlError::Parse(m) => ErrorView::Parse(m@),
            CrawlError::Fetch(m) => ErrorView::Fetch(m@),
            CrawlError::Extraction { gloss, lang } => ErrorView::Extraction {
                gloss: gloss@,
                lang: lang@,
            },
        }
    }
}

/// The text that describes a failure.
pub open spec fn description(e: ErrorView) -> Seq<char> {
    match e {
        ErrorView::Config(m) => "configuration error: "@ + m,
        ErrorView::Io(m) => "I/O error: "@ + m,
        ErrorView::Parse(m) => "parse error: "@ + m,
        ErrorView::Fetch(m) => "fetch error: "@ + m,
        ErrorView::Extraction { gloss, lang } => "no video for gloss "@ + gloss + " in language "@
            + lang,
    }
}

impl CrawlError {
    /// Whether the failure concerns one record only, so that the run goes on.
    pub open spec fn is_per_record(&self) -> bool {
        self is Fetch || self is Extraction
    }

    /// Whether the failure concerns one record only, so that the run goes on.
    pub fn per_record(&self) -> (yes: bool)
        ensures
            yes == self.is_per_record(),
    {
        match self {
            CrawlError::Fetch(_) => true,
            CrawlError::Extraction { .. } => true,
            _ => false,
        }
    }

    /// The text that describes the failure.
    pub fn message(&self) -> (text: String)
        ensures
            text@ == description(self@),
    {
        match self {
            CrawlError::Config(m) => String::from_str("configuration error: ").concat(m.as_str()),
            CrawlError::Io(m) => String::from_str("I/O error: ").concat(m.as_str()),
            CrawlError::Parse(m) => String::from_str("parse error: ").concat(m.as_str()),
            CrawlError::Fetch(m) => String::from_str("fetch error: ").concat(m.as_str()),
            CrawlError::Extraction { gloss, lang } => String::from_str("no video for gloss ").concat(
                gloss.as_str(),
            ).concat(" in language ").concat(lang.as_str()),
        }
    }
}

/// The outcome of enriching one record, as character sequences.
pub open spec fn outcome_view(outcome: Result<StSRecord, CrawlError>) -> Result<
    RecordView,
    ErrorView,
> {
    match outcome {
        Ok(record) => Ok(record@),
        Err(e) => Err(e@),
    }
}

/// The outcome of fetching one page, as character sequences.
pub open spec fn page_view(page: Result<String, String>) -> Result<Seq<char>, Seq<char>> {
    match page {
        Ok(body) => Ok(body@),
        Err(reason) => Err(reason@),
    }
}

} // verus!
