use scrapping::page::{extract_record_video, first_video_source, record_with_video};
use scrapping::record::{CrawlError, StSRecord};

fn gloss(href: &str, name: &str, category: &str) -> StSRecord {
    StSRecord {
        href: href.to_string(),
        video: String::new(),
        gloss: name.to_string(),
        category: category.to_string(),
    }
}

#[test]
fn first_source_of_no_elements_is_none() {
    assert_eq!(first_video_source(&Some(vec![])), None);
    assert_eq!(first_video_source(&None), None);
}

#[test]
fn first_source_looks_at_the_first_element_only() {
    let found = Some(vec![None, Some("b.mp4".to_string())]);
    assert_eq!(first_video_source(&found), None);
    let found = Some(vec![Some("a.mp4".to_string()), Some("b.mp4".to_string())]);
    assert_eq!(first_video_source(&found), Some("a.mp4".to_string()));
}

#[test]
fn record_with_video_fills_the_record() {
    let record = gloss("/es.es/word/5/casa", "casa", "hogar");
    let found = Some(vec![Some("https://media/5.mp4".to_string())]);
    let enriched = record_with_video(&record, "en.us", &found).unwrap();
    assert_eq!(enriched.href, "/en.us/word/5/casa");
    assert_eq!(enriched.video, "https://media/5.mp4");
    assert_eq!(enriched.gloss, "casa");
    assert_eq!(enriched.category, "hogar");
    assert_eq!(record.href, "/es.es/word/5/casa");
    assert_eq!(record.video, "");
}

#[test]
fn record_without_video_is_an_extraction_failure() {
    let record = gloss("/es.es/word/5/casa", "casa", "hogar");
    let failure = record_with_video(&record, "en.us", &Some(vec![])).unwrap_err();
    assert_eq!(
        failure,
        CrawlError::Extraction { gloss: "casa".to_string(), lang: "en.us".to_string() }
    );
    assert_eq!(failure.message(), "no video for gloss casa in language en.us");
    assert!(failure.per_record());
}

#[test]
fn page_with_video_enriches() {
    let record = gloss("/es.es/word/9/perro", "perro", "animales");
    let html = "<html><body><p>x</p><video src=\"/media/9.mp4\" controls></video></body></html>";
    let enriched = extract_record_video(&record, "de.de", &Ok(html.to_string())).unwrap();
    assert_eq!(enriched.video, "/media/9.mp4");
    assert_eq!(enriched.href, "/de.de/word/9/perro");
    assert_eq!(enriched.gloss, "perro");
    assert_eq!(enriched.category, "animales");
}

#[test]
fn page_takes_the_first_video_in_document_order() {
    let record = gloss("/es.es/word/9/perro", "perro", "animales");
    let html = "<div><video src=\"first.mp4\"></video></div><video src=\"second.mp4\"></video>";
    let enriched = extract_record_video(&record, "de.de", &Ok(html.to_string())).unwrap();
    assert_eq!(enriched.video, "first.mp4");
}

#[test]
fn page_without_video_fails() {
    let record = gloss("/es.es/word/9/perro", "perro", "animales");
    let html = "<html><body><img src=\"/media/9.png\"></body></html>";
    let failure = extract_record_video(&record, "de.de", &Ok(html.to_string())).unwrap_err();
    assert_eq!(
        failure,
        CrawlError::Extraction { gloss: "perro".to_string(), lang: "de.de".to_string() }
    );
}

#[test]
fn page_whose_first_video_has_no_source_fails() {
    let record = gloss("/es.es/word/9/perro", "perro", "animales");
    let html = "<video controls></video><video src=\"second.mp4\"></video>";
    let failure = extract_record_video(&record, "de.de", &Ok(html.to_string())).unwrap_err();
    assert!(matches!(failure, CrawlError::Extraction { .. }));
}

#[test]
fn empty_page_fails() {
    let record = gloss("/es.es/word/9/perro", "perro", "animales");
    let failure = extract_record_video(&record, "de.de", &Ok(String::new())).unwrap_err();
    assert!(matches!(failure, CrawlError::Extraction { .. }));
}

#[test]
fn failed_fetch_is_a_fetch_failure() {
    let record = gloss("/es.es/word/9/perro", "perro", "animales");
    let failure = extract_record_video(&record, "de.de", &Err("timed out".to_string())).unwrap_err();
    assert_eq!(failure, CrawlError::Fetch("timed out".to_string()));
    assert_eq!(failure.message(), "fetch error: timed out");
    assert!(failure.per_record());
}

#[test]
fn structural_failures_are_not_per_record() {
    assert!(!CrawlError::Config("c".to_string()).per_record());
    assert!(!CrawlError::Io("i".to_string()).per_record());
    assert!(!CrawlError::Parse("p".to_string()).per_record());
    assert_eq!(CrawlError::Config("c".to_string()).message(), "configuration error: c");
    assert_eq!(CrawlError::Io("i".to_string()).message(), "I/O error: i");
    assert_eq!(CrawlError::Parse("p".to_string()).message(), "parse error: p");
}

#[test]
fn duplicate_keeps_every_field() {
    let record = StSRecord {
        href: "h".to_string(),
        video: "v".to_string(),
        gloss: "g".to_string(),
        category: "c".to_string(),
    };
    assert_eq!(record.duplicate(), record);
}

#[test]
fn derive_gives_a_new_record_and_keeps_the_loaded_one() {
    let record = StSRecord {
        href: "/es.es/word/5/es.es".to_string(),
        video: "kept".to_string(),
        gloss: "casa".to_string(),
        category: "hogar".to_string(),
    };
    let derived = scrapping::page::derive(&record, "it.it");
    assert_eq!(derived.href, "/it.it/word/5/it.it");
    assert_eq!(derived.video, "kept");
    assert_eq!(derived.gloss, "casa");
    assert_eq!(derived.category, "hogar");
    assert_eq!(record.href, "/es.es/word/5/es.es");
    let same = scrapping::page::derive(&record, "es.es");
    assert_eq!(same, record);
}
