use scrapping::record::{CrawlError, StSRecord};
use scrapping::run::{next_action, request_urls, Action, Event};

fn numbered(n: usize) -> Vec<StSRecord> {
    (1..=n)
        .map(|i| StSRecord {
            href: format!("/es.es/word/{}/g{}", i, i),
            video: String::new(),
            gloss: format!("g{}", i),
            category: "c".to_string(),
        })
        .collect()
}

fn langs(codes: &[&str]) -> Vec<String> {
    codes.iter().map(|c| c.to_string()).collect()
}

fn double(url: &str) -> Result<String, String> {
    if url.contains("/word/2/") {
        Ok("<html><body>no film</body></html>".to_string())
    } else if url.contains("/word/3/") {
        Err("connection refused".to_string())
    } else {
        Ok(format!("<video src=\"{}clip.mp4\"></video>", url))
    }
}

#[test]
fn urls_follow_the_records() {
    let urls = request_urls(&numbered(3), "en.us");
    assert_eq!(
        urls,
        vec![
            "https://spreadthesign.com/en.us/word/1/".to_string(),
            "https://spreadthesign.com/en.us/word/2/".to_string(),
            "https://spreadthesign.com/en.us/word/3/".to_string(),
        ]
    );
    assert!(request_urls(&vec![], "en.us").is_empty());
}

#[test]
fn a_run_without_languages_finishes_at_once() {
    let action = next_action(&numbered(2), &vec![], Event::Started);
    assert!(matches!(action, Action::Finish));
}

#[test]
fn a_run_starts_with_the_first_language() {
    let action = next_action(&numbered(2), &langs(&["fr.fr", "en.us"]), Event::Started);
    match action {
        Action::Fetch { lang, urls } => {
            assert_eq!(lang, 0);
            assert_eq!(
                urls,
                vec![
                    "https://spreadthesign.com/fr.fr/word/1/".to_string(),
                    "https://spreadthesign.com/fr.fr/word/2/".to_string(),
                ]
            );
        }
        other => panic!("unexpected action {:?}", other),
    }
}

#[test]
fn fetched_pages_lead_to_a_dataset() {
    let records = numbered(2);
    let pages = vec![Ok("<video src=\"a.mp4\"></video>".to_string()), Err("down".to_string())];
    let action = next_action(&records, &langs(&["fr.fr", "en.us"]), Event::Fetched { lang: 1, pages });
    match action {
        Action::Store { lang, output } => {
            assert_eq!(lang, 1);
            assert_eq!(output.file_name, "metadata.en.us.csv");
            assert_eq!(output.successful, 1);
            assert_eq!(output.failed, 1);
            assert_eq!(
                String::from_utf8(output.content).unwrap(),
                "href,video,gloss,category\n/en.us/word/1/g1,a.mp4,g1,c\n"
            );
        }
        other => panic!("unexpected action {:?}", other),
    }
}

#[test]
fn a_stored_dataset_leads_to_the_next_language() {
    let records = numbered(1);
    let codes = langs(&["fr.fr", "en.us"]);
    let action = next_action(&records, &codes, Event::Stored { lang: 0, failure: None });
    match action {
        Action::Fetch { lang, urls } => {
            assert_eq!(lang, 1);
            assert_eq!(urls, vec!["https://spreadthesign.com/en.us/word/1/".to_string()]);
        }
        other => panic!("unexpected action {:?}", other),
    }
    let action = next_action(&records, &codes, Event::Stored { lang: 1, failure: None });
    assert!(matches!(action, Action::Finish));
}

#[test]
fn a_dataset_that_cannot_be_stored_aborts_the_run() {
    let action = next_action(
        &numbered(1),
        &langs(&["fr.fr", "en.us"]),
        Event::Stored { lang: 0, failure: Some("disk full".to_string()) },
    );
    match action {
        Action::Abort(e) => assert_eq!(e, CrawlError::Io("disk full".to_string())),
        other => panic!("unexpected action {:?}", other),
    }
}

#[test]
fn a_whole_run_with_a_fetch_double() {
    let records = numbered(4);
    let codes = langs(&["en.us", "pt.br"]);
    let mut stored: Vec<(String, String, usize, usize)> = Vec::new();
    let mut action = next_action(&records, &codes, Event::Started);
    let mut steps = 0;
    loop {
        steps += 1;
        assert!(steps < 10);
        let event = match action {
            Action::Fetch { lang, urls } => {
                let pages = urls.iter().map(|u| double(u)).collect();
                Event::Fetched { lang, pages }
            }
            Action::Store { lang, output } => {
                stored.push((
                    output.file_name.clone(),
                    String::from_utf8(output.content.clone()).unwrap(),
                    output.successful,
                    output.failed,
                ));
                Event::Stored { lang, failure: None }
            }
            Action::Finish => break,
            Action::Abort(e) => panic!("unexpected failure {:?}", e),
        };
        action = next_action(&records, &codes, event);
    }
    assert_eq!(stored.len(), 2);
    assert_eq!(stored[0].0, "metadata.en.us.csv");
    assert_eq!(
        stored[0].1,
        "href,video,gloss,category\n/en.us/word/1/g1,https://spreadthesign.com/en.us/word/1/clip.mp4,g1,c\n/en.us/word/4/g4,https://spreadthesign.com/en.us/word/4/clip.mp4,g4,c\n"
    );
    assert_eq!((stored[0].2, stored[0].3), (2, 2));
    assert_eq!(stored[1].0, "metadata.pt.br.csv");
    assert_eq!(
        stored[1].1,
        "href,video,gloss,category\n/pt.br/word/1/g1,https://spreadthesign.com/pt.br/word/1/clip.mp4,g1,c\n/pt.br/word/4/g4,https://spreadthesign.com/pt.br/word/4/clip.mp4,g4,c\n"
    );
    assert_eq!((stored[1].2, stored[1].3), (2, 2));
}

#[test]
fn a_run_stops_at_the_first_dataset_that_cannot_be_stored() {
    let records = numbered(1);
    let codes = langs(&["en.us", "pt.br", "de.de"]);
    let mut fetched: Vec<usize> = Vec::new();
    let mut action = next_action(&records, &codes, Event::Started);
    let failure = loop {
        let event = match action {
            Action::Fetch { lang, urls } => {
                fetched.push(lang);
                Event::Fetched { lang, pages: urls.iter().map(|u| double(u)).collect() }
            }
            Action::Store { lang, .. } => {
                let failure = if lang == 1 { Some("read-only".to_string()) } else { None };
                Event::Stored { lang, failure }
            }
            Action::Finish => panic!("the run went on"),
            Action::Abort(e) => break e,
        };
        action = next_action(&records, &codes, event);
    };
    assert_eq!(failure, CrawlError::Io("read-only".to_string()));
    assert_eq!(fetched, vec![0, 1]);
}
