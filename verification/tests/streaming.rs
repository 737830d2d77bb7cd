use tpbackup::doc::{doc_chunk, doc_prefix, doc_suffix};
use tpbackup::page::FetchError;
use tpbackup::sim::SimCollection;
use tpbackup::streamer::{backup_resource, StreamProgress};
use tpbackup::writer::BufferWriter;

fn numbered_items(n: usize) -> Vec<String> {
    (0..n).map(|i| i.to_string()).collect()
}

fn collection(n: usize) -> SimCollection {
    SimCollection { items: numbered_items(n), fail_at: None }
}

fn expected_document(resource: &str, n: usize) -> String {
    let joined = numbered_items(n).join(",");
    format!("{{\"type\": \"{resource}\", \"items\": [{joined}]}}")
}

#[test]
fn empty_collection_produces_empty_document() {
    let col = collection(0);
    let mut out = BufferWriter::new();
    let r = backup_resource(&col, "Users", &mut out, false);
    assert!(r.is_ok());
    assert_eq!(out.out, "{\"type\": \"Users\", \"items\": []}");
}

#[test]
fn single_page_document_holds_every_item() {
    let col = collection(7);
    let mut out = BufferWriter::new();
    assert!(backup_resource(&col, "Tags", &mut out, false).is_ok());
    assert_eq!(out.out, expected_document("Tags", 7));
}

#[test]
fn multi_page_document_holds_every_item_in_order() {
    let col = collection(250);
    let mut out = BufferWriter::new();
    assert!(backup_resource(&col, "Bugs", &mut out, false).is_ok());
    assert_eq!(out.out, expected_document("Bugs", 250));
}

#[test]
fn exact_page_boundary_document_is_complete() {
    let col = collection(200);
    let mut out = BufferWriter::new();
    assert!(backup_resource(&col, "Tasks", &mut out, false).is_ok());
    assert_eq!(out.out, expected_document("Tasks", 200));
}

#[test]
fn emitted_document_is_valid_json_with_every_item() {
    let col = collection(250);
    let mut out = BufferWriter::new();
    assert!(backup_resource(&col, "Bugs", &mut out, false).is_ok());
    let parsed: serde_json::Value = serde_json::from_str(&out.out).unwrap();
    assert_eq!(parsed["type"], "Bugs");
    let items = parsed["items"].as_array().unwrap();
    assert_eq!(items.len(), 250);
    for (i, item) in items.iter().enumerate() {
        assert_eq!(item.as_i64().unwrap(), i as i64);
    }
}

#[test]
fn progress_mode_still_emits_full_document() {
    let col = collection(250);
    let mut out = BufferWriter::new();
    assert!(backup_resource(&col, "Bugs", &mut out, true).is_ok());
    assert_eq!(out.out, expected_document("Bugs", 250));
}

#[test]
fn progress_mode_single_item_document_is_complete() {
    let col = collection(1);
    let mut out = BufferWriter::new();
    assert!(backup_resource(&col, "Epics", &mut out, true).is_ok());
    assert_eq!(out.out, "{\"type\": \"Epics\", \"items\": [0]}");
}

#[test]
fn progress_mode_zero_estimate_skips_fetch_loop() {
    // An estimate of 0 means an empty collection: the fetch loop is skipped
    // and the document is still well-formed.
    let col = collection(0);
    let mut out = BufferWriter::new();
    assert!(backup_resource(&col, "Epics", &mut out, true).is_ok());
    assert_eq!(out.out, "{\"type\": \"Epics\", \"items\": []}");
}

#[test]
fn fetch_failure_leaves_document_unclosed() {
    // Failure on the second page of three: the first page's items stay, the
    // closing suffix is never written, so the document is deliberately
    // invalid.
    let col = SimCollection { items: numbered_items(250), fail_at: Some(100) };
    let mut out = BufferWriter::new();
    let r = backup_resource(&col, "Bugs", &mut out, false);
    assert_eq!(r.unwrap_err(), FetchError::Transport);
    let joined = numbered_items(100).join(",");
    assert_eq!(out.out, format!("{{\"type\": \"Bugs\", \"items\": [{joined}"));
    assert!(!out.out.ends_with("]}"));
    assert!(serde_json::from_str::<serde_json::Value>(&out.out).is_err());
}

#[test]
fn failure_on_first_page_keeps_only_the_prefix() {
    let col = SimCollection { items: numbered_items(50), fail_at: Some(0) };
    let mut out = BufferWriter::new();
    assert!(backup_resource(&col, "Bugs", &mut out, false).is_err());
    assert_eq!(out.out, "{\"type\": \"Bugs\", \"items\": [");
}

#[test]
fn chunks_carry_commas_only_between_items() {
    assert_eq!(doc_prefix("Bugs"), "{\"type\": \"Bugs\", \"items\": [");
    assert_eq!(doc_chunk(false, &vec!["1".to_string(), "2".to_string()]), "1,2");
    assert_eq!(doc_chunk(true, &vec!["3".to_string()]), ",3");
    assert_eq!(doc_chunk(false, &vec![]), "");
    assert_eq!(doc_chunk(true, &vec![]), "");
    assert_eq!(doc_suffix(), "]}");
}

#[test]
fn step_machine_matches_the_verified_stream() {
    // Driving the fetch loop through StreamProgress, as an unverified
    // caller does, writes exactly what the verified stream writes.
    let col = collection(250);
    let mut manual = String::new();
    manual.push_str(&doc_prefix("Bugs"));
    let mut stream = StreamProgress::start();
    while let Some(offset) = stream.next_offset() {
        let page = col.fetch(100, offset).unwrap();
        manual.push_str(&stream.step(&page));
    }
    manual.push_str(&doc_suffix());
    let mut out = BufferWriter::new();
    assert!(backup_resource(&col, "Bugs", &mut out, false).is_ok());
    assert_eq!(manual, out.out);
}

#[test]
fn unreachable_fail_offset_does_not_fail() {
    // The failing offset sits past the last page the loop requests.
    let col = SimCollection { items: numbered_items(50), fail_at: Some(100) };
    let mut out = BufferWriter::new();
    assert!(backup_resource(&col, "Bugs", &mut out, false).is_ok());
    assert_eq!(out.out, expected_document("Bugs", 50));
}
