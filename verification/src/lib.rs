//! Enrichment of sign-language gloss records with per-language video links.
//!
//! The library holds the rules of the crawl: how a record's path is rewritten
//! for a language, how a page address is cut down to the directory that serves
//! the video, how a fetched page yields a video link, how outcomes are tallied
//! and how datasets are read and written as bytes. Fetching pages and touching
//! files is left to the caller.

pub mod batch;
pub mod dataset;
pub mod page;
pub mod record;
pub mod run;
pub mod text;
pub mod url;
