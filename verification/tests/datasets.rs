use scrapping::dataset::{
    encode_dataset, fields_of, header_row, is_header, load_records, output_name, records_from_rows,
    same_text,
};
use scrapping::record::{CrawlError, StSRecord};

fn record(href: &str, video: &str, gloss: &str, category: &str) -> StSRecord {
    StSRecord {
        href: href.to_string(),
        video: video.to_string(),
        gloss: gloss.to_string(),
        category: category.to_string(),
    }
}

fn row(fields: &[&str]) -> Vec<String> {
    fields.iter().map(|f| f.to_string()).collect()
}

#[test]
fn load_yields_one_record_per_data_row_in_order() {
    let text = "href,video,gloss,category\n/es.es/word/1/a,,a,letras\n/es.es/word/2/b,old.mp4,b,letras\n/es.es/word/3/c,,c,otras\n";
    let records = load_records(text.as_bytes()).unwrap();
    assert_eq!(records.len(), 3);
    assert_eq!(records[0], record("/es.es/word/1/a", "", "a", "letras"));
    assert_eq!(records[1], record("/es.es/word/2/b", "", "b", "letras"));
    assert_eq!(records[2], record("/es.es/word/3/c", "", "c", "otras"));
}

#[test]
fn load_reads_quoted_fields() {
    let text = "href,video,gloss,category\n\"/es.es/word/1/a,b\",,\"a \"\"b\"\"\",\"x\ny\"\n";
    let records = load_records(text.as_bytes()).unwrap();
    assert_eq!(records.len(), 1);
    assert_eq!(records[0].href, "/es.es/word/1/a,b");
    assert_eq!(records[0].gloss, "a \"b\"");
    assert_eq!(records[0].category, "x\ny");
}

#[test]
fn load_of_header_alone_is_empty() {
    let records = load_records(b"href,video,gloss,category\n").unwrap();
    assert!(records.is_empty());
}

#[test]
fn load_fails_on_missing_column() {
    let failure = load_records(b"href,gloss,category\n/a,a,x\n").unwrap_err();
    assert!(matches!(failure, CrawlError::Parse(_)));
}

#[test]
fn load_fails_on_other_header() {
    let failure = load_records(b"href,video,gloss,kind\n/a,,a,x\n").unwrap_err();
    assert!(matches!(failure, CrawlError::Parse(_)));
}

#[test]
fn load_fails_on_malformed_row() {
    let failure = load_records(b"href,video,gloss,category\n/a,,a\n").unwrap_err();
    assert!(matches!(failure, CrawlError::Parse(_)));
    let failure = load_records(b"href,video,gloss,category\n/a,,a,x,y\n").unwrap_err();
    assert!(matches!(failure, CrawlError::Parse(_)));
}

#[test]
fn load_fails_on_bytes_that_are_no_text() {
    let mut bytes = b"href,video,gloss,category\n/a,,".to_vec();
    bytes.push(0xff);
    bytes.extend_from_slice(b",x\n");
    let failure = load_records(&bytes).unwrap_err();
    assert!(matches!(failure, CrawlError::Parse(_)));
}

#[test]
fn load_fails_on_empty_input() {
    let failure = load_records(b"").unwrap_err();
    assert!(matches!(failure, CrawlError::Parse(_)));
}

#[test]
fn rows_without_header_fail() {
    assert!(matches!(records_from_rows(&vec![]), Err(CrawlError::Parse(_))));
    let rows = vec![row(&["/a", "", "a", "x"])];
    assert!(matches!(records_from_rows(&rows), Err(CrawlError::Parse(_))));
}

#[test]
fn rows_become_records() {
    let rows = vec![
        row(&["href", "video", "gloss", "category"]),
        row(&["/a", "seen.mp4", "a", "x"]),
        row(&["/b", "", "b", "y"]),
    ];
    let records = records_from_rows(&rows).unwrap();
    assert_eq!(records, vec![record("/a", "", "a", "x"), record("/b", "", "b", "y")]);
}

#[test]
fn rows_of_other_width_fail() {
    let rows = vec![row(&["href", "video", "gloss", "category"]), row(&["/a", "", "a"])];
    assert!(matches!(records_from_rows(&rows), Err(CrawlError::Parse(_))));
}

#[test]
fn header_is_recognised() {
    assert!(is_header(&header_row()));
    assert!(is_header(&row(&["href", "video", "gloss", "category"])));
    assert!(!is_header(&row(&["href", "video", "gloss"])));
    assert!(!is_header(&row(&["href", "video", "category", "gloss"])));
    assert!(!is_header(&row(&["href", "video", "gloss", "category", ""])));
}

#[test]
fn same_text_compares_whole_texts() {
    assert!(same_text("gloss", "gloss"));
    assert!(!same_text("gloss", "glos"));
    assert!(!same_text("glos", "gloss"));
    assert!(!same_text("gloss", "glosa"));
    assert!(same_text("", ""));
}

#[test]
fn fields_follow_the_columns() {
    let fields = fields_of(&record("h", "v", "g", "c"));
    assert_eq!(fields, row(&["h", "v", "g", "c"]));
}

#[test]
fn encode_writes_header_and_rows_in_order() {
    let rows = vec![
        record("/en.us/word/1/a", "a.mp4", "a", "letras"),
        record("/en.us/word/2/b", "b.mp4", "b", "letras"),
    ];
    let bytes = encode_dataset(&rows).unwrap();
    assert_eq!(
        String::from_utf8(bytes).unwrap(),
        "href,video,gloss,category\n/en.us/word/1/a,a.mp4,a,letras\n/en.us/word/2/b,b.mp4,b,letras\n"
    );
}

#[test]
fn encode_of_no_rows_is_empty() {
    assert_eq!(encode_dataset(&vec![]).unwrap(), Vec::<u8>::new());
}

#[test]
fn encode_quotes_where_needed() {
    let rows = vec![record("/a,b", "v \"1\"", "g", "")];
    let bytes = encode_dataset(&rows).unwrap();
    assert_eq!(
        String::from_utf8(bytes).unwrap(),
        "href,video,gloss,category\n\"/a,b\",\"v \"\"1\"\"\",g,\n"
    );
}

#[test]
fn encoded_dataset_loads_again() {
    let rows = vec![record("/a,b", "v.mp4", "g \"x\"", "c"), record("/d", "w.mp4", "h", "c")];
    let bytes = encode_dataset(&rows).unwrap();
    let back = load_records(&bytes).unwrap();
    assert_eq!(back, vec![record("/a,b", "", "g \"x\"", "c"), record("/d", "", "h", "c")]);
}

#[test]
fn output_is_named_for_the_language() {
    assert_eq!(output_name("en.us"), "metadata.en.us.csv");
    assert_eq!(output_name(""), "metadata..csv");
}
