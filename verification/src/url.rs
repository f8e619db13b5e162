//! Page addresses: the per-language path of a record and the directory that
//! serves its video.

use crate::text::{
    contains, find_from, first_occurrence, lemma_first_occurrence_least,
    lemma_first_occurrence_unique, lemma_occurs_in_prefix, lemma_replace_all_removes,
    lemma_replace_all_with_itself, lemma_replace_all_without_pattern, occurs_at, overlap_free,
    replace_all, replace_every,
};
use vstd::prelude::*;
use vstd::string::*;

verus! {

/// The path segment that precedes a gloss identifier.
pub open spec fn marker() -> Seq<char> {
    seq!['/', 'w', 'o', 'r', 'd', '/']
}

/// The path separator.
pub open spec fn separator() -> Seq<char> {
    seq!['/']
}

/// The locale token that stored paths carry.
pub open spec fn source_locale() -> Seq<char> {
    seq!['e', 's', '.', 'e', 's']
}

/// The site that serves the pages.
pub open spec fn site_root() -> Seq<char> {
    "https://spreadthesign.com"@
}

/// `url` cut just after the first separator that follows the first marker;
/// `url` itself where there is no marker, or no separator after it.
pub open spec fn canonical(url: Seq<char>) -> Seq<char> {
    match first_occurrence(url, marker(), 0) {
        Some(p) => match first_occurrence(url, separator(), p + 6) {
            Some(q) => url.subrange(0, q + 1),
            None => url,
        },
        None => url,
    }
}

/// The path of a record as the site has it for `lang`.
pub open spec fn localized(href: Seq<char>, lang: Seq<char>) -> Seq<char> {
    replace_all(href, source_locale(), lang)
}

/// The address to fetch for a stored path and a language.
pub open spec fn request_address(href: Seq<char>, lang: Seq<char>) -> Seq<char> {
    canonical(site_root() + localized(href, lang))
}

/// Cutting an address down twice gives what cutting it down once gives.
pub proof fn canonical_is_idempotent(url: Seq<char>)
    ensures
        canonical(canonical(url)) == canonical(url),
{
    lemma_first_occurrence_least(url, marker(), 0);
    if let Some(p) = first_occurrence(url, marker(), 0) {
        lemma_first_occurrence_least(url, separator(), p + 6);
        if let Some(q) = first_occurrence(url, separator(), p + 6) {
            let cut = url.subrange(0, q + 1);
            assert forall|k: int| 0 <= k < p implies !occurs_at(cut, marker(), k) by {
                lemma_occurs_in_prefix(url, q + 1, marker(), k);
            }
            lemma_occurs_in_prefix(url, q + 1, marker(), p);
            lemma_first_occurrence_unique(cut, marker(), 0, p);
            assert forall|k: int| p + 6 <= k < q implies !occurs_at(cut, separator(), k) by {
                lemma_occurs_in_prefix(url, q + 1, separator(), k);
            }
            lemma_occurs_in_prefix(url, q + 1, separator(), q);
            lemma_first_occurrence_unique(cut, separator(), p + 6, q);
            assert(cut.subrange(0, q + 1) =~= cut);
        }
    }
}

/// An address that holds no marker is its own cut-down form.
pub proof fn canonical_without_marker(url: Seq<char>)
    requires
        !contains(url, marker()),
    ensures
        canonical(url) == url,
{
    lemma_first_occurrence_least(url, marker(), 0);
}

/// The cut-down form of an address with a marker and a separator after it
/// ends in a separator and is a prefix of the address.
pub proof fn canonical_ends_in_separator(url: Seq<char>)
    requires
        first_occurrence(url, marker(), 0) is Some,
        first_occurrence(url, separator(), first_occurrence(url, marker(), 0)->0 + 6) is Some,
    ensures
        canonical(url).len() <= url.len(),
        canonical(url) == url.subrange(0, canonical(url).len() as int),
        canonical(url).last() == '/',
{
    let p = first_occurrence(url, marker(), 0)->0;
    lemma_first_occurrence_least(url, marker(), 0);
    lemma_first_occurrence_least(url, separator(), p + 6);
    let q = first_occurrence(url, separator(), p + 6)->0;
    assert(url.subrange(q, q + 1)[0] == separator()[0]);
}

/// A path that holds no source-locale token is the same for every language.
pub proof fn localized_without_token(href: Seq<char>, lang: Seq<char>)
    requires
        !contains(href, source_locale()),
    ensures
        localized(href, lang) == href,
{
    lemma_replace_all_without_pattern(href, source_locale(), lang);
}

/// Rewriting a path for the source locale itself leaves the path as it is.
pub proof fn localized_to_source_locale(href: Seq<char>)
    ensures
        localized(href, source_locale()) == href,
{
    lemma_replace_all_with_itself(href, source_locale());
}

/// For a language code that is overlap-free with the source-locale token,
/// the rewritten path holds that token nowhere.
pub proof fn localized_drops_source_locale(href: Seq<char>, lang: Seq<char>)
    requires
        overlap_free(lang, source_locale()),
    ensures
        !contains(localized(href, lang), source_locale()),
{
    assert forall|k: int| !occurs_at(localized(href, lang), source_locale(), k) by {
        lemma_replace_all_removes(href, source_locale(), lang, k);
    }
}

/// Cuts a gloss address down to the directory that serves its video.
pub fn extract_base_url(url: &str) -> (base: String)
    ensures
        base@ == canonical(url@),
{
    proof {
        reveal_strlit("/word/");
        reveal_strlit("/");
        assert("/word/"@ =~= marker());
        assert("/"@ =~= separator());
    }
    match find_from(url, "/word/", 0) {
        Some(p) => {
            proof {
                lemma_first_occurrence_least(url@, marker(), 0);
            }
            match find_from(url, "/", p + 6) {
                Some(q) => {
                    proof {
                        lemma_first_occurrence_least(url@, separator(), p + 6);
                    }
                    String::from_str(url.substring_char(0, q + 1))
                },
                None => String::from_str(url),
            }
        },
        None => String::from_str(url),
    }
}

/// Rewrites a stored path for `lang`: every source-locale token becomes `lang`.
pub fn derive_href(href: &str, lang: &str) -> (out: String)
    ensures
        out@ == localized(href@, lang@),
{
    proof {
        reveal_strlit("es.es");
        assert("es.es"@ =~= source_locale());
    }
    replace_every(href, "es.es", lang)
}

/// The address to fetch for a stored path and a language.
pub fn request_url(href: &str, lang: &str) -> (url: String)
    ensures
        url@ == request_address(href@, lang@),
{
    let path = derive_href(href, lang);
    let full = String::from_str("https://spreadthesign.com").concat(path.as_str());
    extract_base_url(full.as_str())
}

} // verus!
