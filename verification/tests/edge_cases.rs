//! Edge cases: chunk-boundary independence, error labels, stored-secret
//! field shapes, and number rendering.

use base64::Engine;
use rustchat::anthropic::anthropic_settings;
use rustchat::config::ApiKeyProviderConfig;
use rustchat::errors::ChatError;
use rustchat::google::google_auth_ok;
use rustchat::message::ChatMessage;
use rustchat::message::ChatRequestOptions;
use rustchat::openai::build_openai_request;
use rustchat::openai::OpenAiStreamDecoder;
use rustchat::secrets::decrypt_secret;
use rustchat::secrets::encrypt_secret;
use rustchat::secrets::EncryptedSecret;
use rustchat::secrets::SecretError;

#[test]
fn fragments_do_not_depend_on_chunk_boundaries() {
    let body = "data: {\"choices\":[{\"delta\":{\"content\":\"alpha\"}}]}\n\ndata: {\"choices\":[{\"delta\":{\"content\":\"beta\"}}]}\n\ndata: [DONE]\n\n";
    // Feed the whole body at once.
    let mut whole = OpenAiStreamDecoder::new();
    let (frags_whole, ok_whole) = whole.push_chunk(body);
    assert!(ok_whole);
    // Feed it split at every single byte boundary.
    for cut in 0..body.len() {
        if !body.is_char_boundary(cut) {
            continue;
        }
        let mut split = OpenAiStreamDecoder::new();
        let (mut frags, ok1) = split.push_chunk(&body[..cut]);
        assert!(ok1);
        let (tail, ok2) = split.push_chunk(&body[cut..]);
        assert!(ok2);
        frags.extend(tail);
        assert_eq!(frags, frags_whole, "split at {cut}");
    }
}

#[test]
fn error_labels_name_the_class() {
    assert_eq!(ChatError::Auth.label(), "auth error");
    assert_eq!(ChatError::Transport.label(), "transport error");
    assert_eq!(ChatError::Api { status: 500, body: "x".to_string() }.label(), "api error");
    assert_eq!(ChatError::MalformedResponse.label(), "malformed response");
    assert_eq!(ChatError::Decode.label(), "decode error");
    assert_eq!(
        ChatError::Unsupported.label(),
        "streaming not supported by this provider yet"
    );
}

#[test]
fn construction_demands_a_credential() {
    assert!(google_auth_ok(true, false).is_ok());
    assert!(google_auth_ok(false, true).is_ok());
    assert!(matches!(google_auth_ok(false, false), Err(ChatError::Auth)));

    let cfg = ApiKeyProviderConfig {
        api_key: None,
        encrypted_api_key: None,
        base_url: None,
        default_model: None,
    };
    assert!(matches!(anthropic_settings(&cfg), Err(ChatError::Auth)));
}

#[test]
fn stored_secret_fields_are_base64_of_fixed_lengths() {
    let enc = encrypt_secret("pw", "value").expect("encrypt");
    let salt = base64::engine::general_purpose::STANDARD
        .decode(&enc.salt)
        .expect("salt is base64");
    let nonce = base64::engine::general_purpose::STANDARD
        .decode(&enc.nonce)
        .expect("nonce is base64");
    let ciphertext = base64::engine::general_purpose::STANDARD
        .decode(&enc.ciphertext)
        .expect("ciphertext is base64");
    assert_eq!(salt.len(), 16);
    assert_eq!(nonce.len(), 12);
    // AES-256-GCM appends a 16-byte tag to the plaintext.
    assert_eq!(ciphertext.len(), "value".len() + 16);
}

#[test]
fn corrupted_base64_is_a_bad_encoding() {
    let enc = encrypt_secret("pw", "value").expect("encrypt");
    let broken = EncryptedSecret {
        salt: "!!not base64!!".to_string(),
        nonce: enc.nonce.clone(),
        ciphertext: enc.ciphertext.clone(),
    };
    assert!(matches!(decrypt_secret("pw", &broken), Err(SecretError::BadEncoding)));
}

#[test]
fn tampered_ciphertext_fails_to_authenticate() {
    let enc = encrypt_secret("pw", "value").expect("encrypt");
    let tampered = EncryptedSecret {
        salt: enc.salt.clone(),
        nonce: enc.nonce.clone(),
        ciphertext: base64::engine::general_purpose::STANDARD.encode(b"0123456789abcdef0123"),
    };
    assert!(matches!(decrypt_secret("pw", &tampered), Err(SecretError::CryptoFailed)));
}

#[test]
fn temperature_thousandths_render_exactly() {
    let cases: [(u32, &str); 5] =
        [(700, "0.7"), (250, "0.25"), (1000, "1"), (1500, "1.5"), (5, "0.005")];
    for (milli, expect) in cases {
        let body = build_openai_request(
            "m",
            &None,
            None,
            &vec![ChatMessage::user("x")],
            &ChatRequestOptions { temperature: Some(milli), max_output_tokens: None },
            false,
        );
        let want = format!("\"temperature\":{expect},");
        assert!(body.contains(&want), "temperature {milli} should render as {expect} in {body}");
    }
}
