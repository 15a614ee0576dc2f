//! Stream decoder behaviour: line-delimited event framing, balanced-bracket
//! extraction, and snapshot diffing.

use rustchat::anthropic::AnthropicStreamDecoder;
use rustchat::google::GoogleStreamDecoder;
use rustchat::openai::OpenAiStreamDecoder;
use rustchat::snapshot::extract_delta;
use rustchat::snapshot::next_value;

fn chars(s: &str) -> Vec<char> {
    s.chars().collect()
}

fn text(v: &[char]) -> String {
    v.iter().collect()
}

#[test]
fn line_decoder_single_fragment_then_done() {
    let mut d = OpenAiStreamDecoder::new();
    let (frags, ok) = d.push_chunk("data: {\"choices\":[{\"delta\":{\"content\":\"A\"}}]}\n\n");
    assert!(ok);
    assert_eq!(frags, vec!["A".to_string()]);
    let (frags2, ok2) = d.push_chunk("data: [DONE]\n\n");
    assert!(ok2);
    assert!(frags2.is_empty());
    let (frags3, ok3) = d.finish();
    assert!(ok3);
    assert!(frags3.is_empty());
}

#[test]
fn line_decoder_handles_crlf_and_split_chunks() {
    let mut d = OpenAiStreamDecoder::new();
    let (frags, ok) = d.push_chunk("data: {\"choices\":[{\"delta\":{\"con");
    assert!(ok);
    assert!(frags.is_empty());
    let (frags2, ok2) = d.push_chunk("tent\":\"Hi\"}}]}\r\n\r\n");
    assert!(ok2);
    assert_eq!(frags2, vec!["Hi".to_string()]);
}

#[test]
fn line_decoder_flushes_residual_payload_on_finish() {
    let mut d = OpenAiStreamDecoder::new();
    let (frags, ok) = d.push_chunk("data: {\"choices\":[{\"delta\":{\"content\":\"tail\"}}]}\n");
    assert!(ok);
    assert!(frags.is_empty());
    let (frags2, ok2) = d.finish();
    assert!(ok2);
    assert_eq!(frags2, vec!["tail".to_string()]);
}

#[test]
fn line_decoder_reports_decode_failure() {
    let mut d = OpenAiStreamDecoder::new();
    let (frags, ok) = d.push_chunk("data: not json\n\n");
    assert!(!ok);
    assert!(frags.is_empty());
}

#[test]
fn line_decoder_suppresses_empty_deltas() {
    let mut d = OpenAiStreamDecoder::new();
    let (frags, ok) = d.push_chunk(
        "data: {\"choices\":[{\"delta\":{\"content\":\"\"}},{\"delta\":{\"content\":\"B\"}}]}\n\n",
    );
    assert!(ok);
    assert_eq!(frags, vec!["B".to_string()]);
}

#[test]
fn anthropic_decoder_reads_typed_events() {
    let mut d = AnthropicStreamDecoder::new();
    let (frags, ok) = d.push_chunk(
        "data: {\"type\":\"content_block_start\",\"content_block\":{\"type\":\"text\",\"text\":\"He\"}}\n\n",
    );
    assert!(ok);
    assert_eq!(frags, vec!["He".to_string()]);
    let (frags2, ok2) = d.push_chunk(
        "data: {\"type\":\"content_block_delta\",\"delta\":{\"type\":\"text_delta\",\"text\":\"llo\"}}\n\n",
    );
    assert!(ok2);
    assert_eq!(frags2, vec!["llo".to_string()]);
    let (frags3, ok3) = d.push_chunk(
        "data: {\"type\":\"message_stop\"}\n\n",
    );
    assert!(ok3);
    assert!(frags3.is_empty());
}

#[test]
fn bracket_extractor_ignores_braces_inside_strings() {
    // A brace character inside a quoted string must not close the object.
    let mut buffer = chars("{\"a\":\"}\"");
    let r = next_value(&mut buffer);
    assert!(r.is_none());
    // Once the real closing brace arrives, the whole object is extracted.
    let mut buffer2 = chars("{\"a\":\"}\"}");
    let r2 = next_value(&mut buffer2);
    assert_eq!(text(&r2.unwrap()), "{\"a\":\"}\"}");
    assert!(buffer2.is_empty());
}

#[test]
fn bracket_extractor_respects_escapes_and_prefix() {
    let mut buffer = chars("data: {\"a\":\"\\\"}\"} rest");
    let r = next_value(&mut buffer);
    assert_eq!(text(&r.unwrap()), "{\"a\":\"\\\"}\"}");
    assert_eq!(text(&buffer), " rest");
}

#[test]
fn snapshot_diff_emits_exactly_the_new_text() {
    // Snapshots "Hi", "Hi there", "Hi there" (duplicate), "Hi" (stale).
    let mut snapshot: Vec<char> = Vec::new();
    let d1 = extract_delta(&mut snapshot, &chars("Hi"));
    let d2 = extract_delta(&mut snapshot, &chars("Hi there"));
    let d3 = extract_delta(&mut snapshot, &chars("Hi there"));
    let d4 = extract_delta(&mut snapshot, &chars("Hi"));
    assert_eq!(text(&d1), "Hi");
    assert_eq!(text(&d2), " there");
    assert_eq!(text(&d3), "");
    assert_eq!(text(&d4), "");
    let nonempty: Vec<String> = [d1, d2, d3, d4]
        .iter()
        .filter(|d| !d.is_empty())
        .map(|d| text(d))
        .collect();
    assert_eq!(nonempty.len(), 2);
    assert_eq!(nonempty.concat(), "Hi there");
}

#[test]
fn snapshot_diff_adopts_divergent_snapshot_whole() {
    let mut snapshot = chars("Hello");
    let d = extract_delta(&mut snapshot, &chars("Goodbye"));
    assert_eq!(text(&d), "Goodbye");
    assert_eq!(text(&snapshot), "Goodbye");
}

#[test]
fn google_decoder_diffs_streamed_snapshots() {
    let mut d = GoogleStreamDecoder::new();
    let (frags, ok) = d.push_chunk(
        "{\"candidates\":[{\"content\":{\"role\":\"model\",\"parts\":[{\"text\":\"Hi\"}]}}]}",
    );
    assert!(ok);
    assert_eq!(frags, vec!["Hi".to_string()]);
    let (frags2, ok2) = d.push_chunk(
        "{\"candidates\":[{\"content\":{\"role\":\"model\",\"parts\":[{\"text\":\"Hi there\"}]}}]}",
    );
    assert!(ok2);
    assert_eq!(frags2, vec![" there".to_string()]);
    // A duplicated snapshot emits nothing.
    let (frags3, ok3) = d.push_chunk(
        "{\"candidates\":[{\"content\":{\"role\":\"model\",\"parts\":[{\"text\":\"Hi there\"}]}}]}",
    );
    assert!(ok3);
    assert!(frags3.is_empty());
}

#[test]
fn google_decoder_reads_arrays_and_data_prefix() {
    let mut d = GoogleStreamDecoder::new();
    let body = "data: [{\"candidates\":[{\"content\":{\"role\":\"model\",\"parts\":[{\"text\":\"a\"}]}}]},{\"candidates\":[{\"content\":{\"role\":\"model\",\"parts\":[{\"text\":\"ab\"}]}}]}]";
    let (frags, ok) = d.push_chunk(body);
    assert!(ok);
    assert_eq!(frags, vec!["a".to_string(), "b".to_string()]);
}

#[test]
fn google_decoder_keeps_incomplete_values_buffered() {
    let mut d = GoogleStreamDecoder::new();
    let (frags, ok) = d.push_chunk(
        "{\"candidates\":[{\"content\":{\"role\":\"model\",\"parts\":[{\"text\":\"Hi",
    );
    assert!(ok);
    assert!(frags.is_empty());
    let (frags2, ok2) = d.push_chunk("\"}]}}]}");
    assert!(ok2);
    assert_eq!(frags2, vec!["Hi".to_string()]);
}

#[test]
fn google_decoder_reports_unparseable_fragment() {
    let mut d = GoogleStreamDecoder::new();
    let (frags, ok) = d.push_chunk("{\"candidates\":5}");
    assert!(!ok);
    assert!(frags.is_empty());
}
