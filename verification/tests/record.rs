use answer_cache::codec::{encode, CorruptPayloadError};
use answer_cache::record::{fetch, field_or_default, find_field, CacheRecord};

fn pair(name: &str, value: &str) -> (String, String) {
    (name.to_string(), value.to_string())
}

#[test]
fn new_record_holds_the_canonical_question_and_the_stored_answer() {
    let record = CacheRecord::new("  Explain X  ", "Ownership means...").unwrap();
    assert_eq!(record.question, "Explain X");
    assert_eq!(Some(record.answer.clone()), encode("Ownership means..."));
    assert_eq!(record.answer_text(), Ok("Ownership means...".to_string()));
}

#[test]
fn record_is_written_as_two_fields() {
    let record = CacheRecord { question: "Explain X".to_string(), answer: "eJwDAAAAAAE=".to_string() };
    assert_eq!(
        record.fields(),
        vec![pair("question", "Explain X"), pair("answer", "eJwDAAAAAAE=")]
    );
}

#[test]
fn no_fields_hold_no_record() {
    assert_eq!(CacheRecord::from_fields(&vec![]), None);
    assert_eq!(fetch(&vec![]), Ok(None));
}

#[test]
fn fields_of_a_record_hold_that_record() {
    let record = CacheRecord::new("Explain X", "Ownership means...").unwrap();
    assert_eq!(CacheRecord::from_fields(&record.fields()), Some(record));
}

#[test]
fn fields_are_found_in_any_order() {
    let fields = vec![pair("answer", "A"), pair("other", "O"), pair("question", "Q")];
    assert_eq!(
        CacheRecord::from_fields(&fields),
        Some(CacheRecord { question: "Q".to_string(), answer: "A".to_string() })
    );
}

#[test]
fn missing_field_reads_as_empty_text() {
    let fields = vec![pair("question", "Q")];
    assert_eq!(
        CacheRecord::from_fields(&fields),
        Some(CacheRecord { question: "Q".to_string(), answer: String::new() })
    );
    let fields = vec![pair("unrelated", "U")];
    assert_eq!(
        CacheRecord::from_fields(&fields),
        Some(CacheRecord { question: String::new(), answer: String::new() })
    );
}

#[test]
fn last_field_of_a_name_is_read() {
    let fields = vec![pair("answer", "old"), pair("question", "Q"), pair("answer", "new")];
    assert_eq!(find_field(&fields, "answer"), Some("new".to_string()));
    assert_eq!(find_field(&fields, "question"), Some("Q".to_string()));
    assert_eq!(find_field(&fields, "missing"), None);
    assert_eq!(field_or_default(&fields, "missing"), "");
    assert_eq!(field_or_default(&fields, "answer"), "new");
}

#[test]
fn field_names_are_matched_exactly() {
    let fields = vec![pair("Answer", "upper"), pair("answer ", "padded")];
    assert_eq!(find_field(&fields, "answer"), None);
}

#[test]
fn fetch_returns_the_question_and_the_decoded_answer() {
    let record = CacheRecord::new("Explain X", "Ownership means...").unwrap();
    assert_eq!(
        fetch(&record.fields()),
        Ok(Some(("Explain X".to_string(), "Ownership means...".to_string())))
    );
}

#[test]
fn put_then_get_returns_the_record() {
    // A store that keeps, for one key, the fields set under it.
    let mut held: Vec<(String, String)> = vec![pair("question", "stale"), pair("extra", "kept")];
    let record = CacheRecord::new("Explain X", "a\nb \u{1f680}").unwrap();
    held.extend(record.fields());
    assert_eq!(fetch(&held), Ok(Some(("Explain X".to_string(), "a\nb \u{1f680}".to_string()))));
}

#[test]
fn fetch_reports_a_corrupt_payload() {
    let stored = encode("Ownership means...").unwrap();
    let cut = &stored[..stored.len() - 2];
    let fields = vec![pair("question", "Explain X"), pair("answer", cut)];
    assert_eq!(fetch(&fields), Err(CorruptPayloadError::Base64));
    let fields = vec![pair("question", "Explain X"), pair("answer", "Zm9vYmFy")];
    assert_eq!(fetch(&fields), Err(CorruptPayloadError::Zlib));
    let fields = vec![pair("question", "Explain X")];
    assert_eq!(fetch(&fields), Err(CorruptPayloadError::Zlib));
}
