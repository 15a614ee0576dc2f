//! Request construction: exact wire bodies, option elision, model
//! defaulting and system-prompt folding.

use rustchat::anthropic::anthropic_endpoint;
use rustchat::anthropic::build_anthropic_request;
use rustchat::google::build_google_request;
use rustchat::google::google_endpoint;
use rustchat::google::google_pick_model;
use rustchat::message::ChatMessage;
use rustchat::message::ChatRequestOptions;
use rustchat::openai::build_openai_request;
use rustchat::openai::openai_endpoint;

fn history() -> Vec<ChatMessage> {
    vec![ChatMessage::user("Hi"), ChatMessage::assistant("Hello!")]
}

#[test]
fn openai_request_elides_unset_options() {
    let body = build_openai_request(
        "gpt-x",
        &None,
        None,
        &vec![ChatMessage::user("Hi")],
        &ChatRequestOptions::default(),
        false,
    );
    assert_eq!(
        body,
        "{\"model\":\"gpt-x\",\"messages\":[{\"role\":\"user\",\"content\":\"Hi\"}],\"stream\":false}"
    );
    assert!(!body.contains("null"));
}

#[test]
fn openai_request_renders_options_and_stream() {
    let opts = ChatRequestOptions { temperature: Some(700), max_output_tokens: Some(100) };
    let body = build_openai_request("gpt-x", &None, Some("Be kind"), &history(), &opts, true);
    assert_eq!(
        body,
        "{\"model\":\"gpt-x\",\"messages\":[{\"role\":\"system\",\"content\":\"Be kind\"},{\"role\":\"user\",\"content\":\"Hi\"},{\"role\":\"assistant\",\"content\":\"Hello!\"}],\"max_tokens\":100,\"temperature\":0.7,\"stream\":true}"
    );
}

#[test]
fn openai_history_system_messages_keep_their_role() {
    let msgs = vec![ChatMessage::system("rule"), ChatMessage::user("q")];
    let body = build_openai_request("m", &None, None, &msgs, &ChatRequestOptions::default(), false);
    assert!(body.contains("{\"role\":\"system\",\"content\":\"rule\"}"));
    assert!(body.contains("{\"role\":\"user\",\"content\":\"q\"}"));
}

#[test]
fn blank_model_falls_back_to_default_then_constant() {
    let configured = Some("custom-model".to_string());
    let body = build_openai_request(
        "  ",
        &configured,
        None,
        &history(),
        &ChatRequestOptions::default(),
        false,
    );
    assert!(body.starts_with("{\"model\":\"custom-model\""));
    let body2 =
        build_openai_request("", &None, None, &history(), &ChatRequestOptions::default(), false);
    assert!(body2.starts_with("{\"model\":\"gpt-4o-mini\""));
    let body3 = build_anthropic_request(
        "\t",
        &None,
        None,
        &history(),
        &ChatRequestOptions::default(),
        false,
    );
    assert!(body3.starts_with("{\"model\":\"sonnet-3-20240229\""));
    assert_eq!(google_pick_model(" ", &None), "gemini-pro");
    assert_eq!(google_pick_model("gemini-ultra", &None), "gemini-ultra");
}

#[test]
fn anthropic_request_folds_system_prompts() {
    let msgs = vec![
        ChatMessage::system("first rule"),
        ChatMessage::user("Hi"),
        ChatMessage::system("second rule"),
    ];
    let body = build_anthropic_request(
        "model-z",
        &None,
        Some("persona"),
        &msgs,
        &ChatRequestOptions::default(),
        false,
    );
    assert_eq!(
        body,
        "{\"model\":\"model-z\",\"max_tokens\":1024,\"system\":\"persona\\nfirst rule\\nsecond rule\",\"messages\":[{\"role\":\"user\",\"content\":[{\"type\":\"text\",\"text\":\"Hi\"}]}],\"stream\":false}"
    );
}

#[test]
fn anthropic_max_tokens_has_floor_and_default() {
    let none = build_anthropic_request(
        "m",
        &None,
        None,
        &history(),
        &ChatRequestOptions::default(),
        false,
    );
    assert!(none.contains("\"max_tokens\":1024"));
    let zero = build_anthropic_request(
        "m",
        &None,
        None,
        &history(),
        &ChatRequestOptions { temperature: None, max_output_tokens: Some(0) },
        false,
    );
    assert!(zero.contains("\"max_tokens\":1"));
}

#[test]
fn google_request_shape_and_folding() {
    let msgs = vec![ChatMessage::system("ground rule"), ChatMessage::user("Hi")];
    let opts = ChatRequestOptions { temperature: Some(250), max_output_tokens: Some(64) };
    let body = build_google_request(Some("persona"), &msgs, &opts);
    assert_eq!(
        body,
        "{\"contents\":[{\"role\":\"user\",\"parts\":[{\"text\":\"Hi\"}]}],\"system_instruction\":{\"role\":\"system\",\"parts\":[{\"text\":\"persona\\nground rule\"}]},\"generation_config\":{\"temperature\":0.25,\"max_output_tokens\":64}}"
    );
}

#[test]
fn google_request_with_nothing_optional() {
    let body =
        build_google_request(None, &vec![ChatMessage::user("q")], &ChatRequestOptions::default());
    assert_eq!(
        body,
        "{\"contents\":[{\"role\":\"user\",\"parts\":[{\"text\":\"q\"}]}],\"generation_config\":{}}"
    );
    assert!(!body.contains("system_instruction"));
}

#[test]
fn google_assistant_turns_use_the_model_role() {
    let body = build_google_request(None, &history(), &ChatRequestOptions::default());
    assert!(body.contains("{\"role\":\"model\",\"parts\":[{\"text\":\"Hello!\"}]}"));
}

#[test]
fn content_is_json_escaped() {
    let msgs = vec![ChatMessage::user("say \"hi\"\nwith a \\ backslash")];
    let body = build_openai_request("m", &None, None, &msgs, &ChatRequestOptions::default(), false);
    assert!(body.contains("say \\\"hi\\\"\\nwith a \\\\ backslash"));
}

#[test]
fn endpoints_trim_trailing_slashes() {
    assert_eq!(openai_endpoint("https://api.openai.com"), "https://api.openai.com/v1/chat/completions");
    assert_eq!(anthropic_endpoint("https://example.test//"), "https://example.test/v1/messages");
    assert_eq!(
        google_endpoint("gemini-pro", false),
        "https://generativelanguage.googleapis.com/v1/models/gemini-pro:generateContent"
    );
    assert_eq!(
        google_endpoint("gemini-pro", true),
        "https://generativelanguage.googleapis.com/v1/models/gemini-pro:streamGenerateContent"
    );
}
