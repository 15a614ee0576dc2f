//! Agreement between the non-streaming reply and the streamed fragments of
//! one deterministic mock exchange, per vendor, and idempotence of the reply
//! extraction.

use rustchat::anthropic::anthropic_chat_text;
use rustchat::anthropic::AnthropicStreamDecoder;
use rustchat::errors::ChatError;
use rustchat::google::google_chat_text;
use rustchat::google::GoogleStreamDecoder;
use rustchat::openai::openai_chat_text;
use rustchat::openai::OpenAiStreamDecoder;

#[test]
fn openai_stream_concat_matches_chat_reply() {
    let reply_body =
        "{\"choices\":[{\"message\":{\"role\":\"assistant\",\"content\":\"Hello world\"}}]}";
    let chat = openai_chat_text(reply_body).expect("reply text");

    let mut d = OpenAiStreamDecoder::new();
    let mut streamed = String::new();
    let chunks = [
        "data: {\"choices\":[{\"delta\":{\"content\":\"Hello \"}}]}\n\n",
        "data: {\"choices\":[{\"delta\":{\"content\":\"world\"}}]}\n\n",
        "data: [DONE]\n\n",
    ];
    for c in chunks.iter() {
        let (frags, ok) = d.push_chunk(c);
        assert!(ok);
        for f in frags {
            streamed.push_str(&f);
        }
    }
    let (rest, ok) = d.finish();
    assert!(ok);
    assert!(rest.is_empty());
    assert_eq!(chat, streamed);
}

#[test]
fn anthropic_stream_concat_matches_chat_reply() {
    let reply_body =
        "{\"content\":[{\"type\":\"text\",\"text\":\"Hel\"},{\"type\":\"text\",\"text\":\"lo\"}]}";
    let chat = anthropic_chat_text(reply_body).expect("reply text");

    let mut d = AnthropicStreamDecoder::new();
    let mut streamed = String::new();
    let chunks = [
        "data: {\"type\":\"content_block_start\",\"content_block\":{\"type\":\"text\",\"text\":\"Hel\"}}\n\n",
        "data: {\"type\":\"content_block_delta\",\"delta\":{\"type\":\"text_delta\",\"text\":\"lo\"}}\n\n",
        "data: {\"type\":\"message_stop\"}\n\n",
    ];
    for c in chunks.iter() {
        let (frags, ok) = d.push_chunk(c);
        assert!(ok);
        for f in frags {
            streamed.push_str(&f);
        }
    }
    assert_eq!(chat, streamed);
}

#[test]
fn google_stream_concat_matches_chat_reply() {
    let reply_body =
        "{\"candidates\":[{\"content\":{\"role\":\"model\",\"parts\":[{\"text\":\"Hi there\"}]}}]}";
    let chat = google_chat_text(reply_body).expect("reply text");

    // The stream serves growing snapshots of the same answer, with a
    // duplicate delivery in the middle.
    let mut d = GoogleStreamDecoder::new();
    let mut streamed = String::new();
    let chunks = [
        "{\"candidates\":[{\"content\":{\"role\":\"model\",\"parts\":[{\"text\":\"Hi\"}]}}]}",
        "{\"candidates\":[{\"content\":{\"role\":\"model\",\"parts\":[{\"text\":\"Hi\"}]}}]}",
        "{\"candidates\":[{\"content\":{\"role\":\"model\",\"parts\":[{\"text\":\"Hi there\"}]}}]}",
    ];
    for c in chunks.iter() {
        let (frags, ok) = d.push_chunk(c);
        assert!(ok);
        for f in frags {
            streamed.push_str(&f);
        }
    }
    assert_eq!(chat, streamed);
}

#[test]
fn chat_reply_is_idempotent_per_vendor() {
    let openai_body = "{\"choices\":[{\"message\":{\"content\":\"same\"}}]}";
    assert_eq!(openai_chat_text(openai_body).unwrap(), openai_chat_text(openai_body).unwrap());

    let anthropic_body = "{\"content\":[{\"type\":\"text\",\"text\":\"same\"}]}";
    assert_eq!(
        anthropic_chat_text(anthropic_body).unwrap(),
        anthropic_chat_text(anthropic_body).unwrap()
    );

    let google_body =
        "{\"candidates\":[{\"content\":{\"role\":\"model\",\"parts\":[{\"text\":\"same\"}]}}]}";
    assert_eq!(google_chat_text(google_body).unwrap(), google_chat_text(google_body).unwrap());
}

#[test]
fn malformed_replies_are_reported() {
    assert!(matches!(openai_chat_text("not json"), Err(ChatError::MalformedResponse)));
    assert!(matches!(
        openai_chat_text("{\"choices\":[]}"),
        Err(ChatError::MalformedResponse)
    ));
    assert!(matches!(
        openai_chat_text("{\"choices\":[{\"message\":{\"content\":\"\"}}]}"),
        Err(ChatError::MalformedResponse)
    ));
    assert!(matches!(
        anthropic_chat_text("{\"content\":[{\"type\":\"text\",\"text\":\"  \"}]}"),
        Err(ChatError::MalformedResponse)
    ));
    assert!(matches!(
        google_chat_text("{\"candidates\":[]}"),
        Err(ChatError::MalformedResponse)
    ));
}

#[test]
fn merged_reply_concatenates_blocks_and_parts() {
    let anthropic_body = "{\"content\":[{\"type\":\"text\",\"text\":\"a\"},{\"type\":\"tool_use\"},{\"type\":\"text\",\"text\":\"b\"}]}";
    assert_eq!(anthropic_chat_text(anthropic_body).unwrap(), "ab");

    let google_body = "{\"candidates\":[{\"content\":{\"role\":\"model\",\"parts\":[{\"text\":\"a\"},{},{\"text\":\"b\"}]}}]}";
    assert_eq!(google_chat_text(google_body).unwrap(), "ab");
}
