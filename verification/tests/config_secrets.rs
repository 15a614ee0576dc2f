//! Configuration bookkeeping and secret handling.

use rustchat::cli::ApiKeySetArgs;
use rustchat::cli::ConfigSetArgs;
use rustchat::cli::GoogleSetArgs;
use rustchat::cli::ProviderKindArg;
use rustchat::config::build_provider_config;
use rustchat::config::ApiKeyProviderConfig;
use rustchat::config::AppConfig;
use rustchat::config::ConfigError;
use rustchat::config::ProviderConfig;
use rustchat::config::ProviderKind;
use rustchat::secrets::decrypt_secret;
use rustchat::secrets::encrypt_secret;
use rustchat::secrets::maybe_encrypt_secret;
use rustchat::secrets::require_secret;
use rustchat::secrets::resolve_secret;
use rustchat::secrets::SecretError;

fn api_cfg(key: Option<&str>) -> ApiKeyProviderConfig {
    ApiKeyProviderConfig {
        api_key: key.map(|k| k.to_string()),
        encrypted_api_key: None,
        base_url: None,
        default_model: Some("m1".to_string()),
    }
}

fn set_args(key: Option<&str>, encrypt: bool) -> ConfigSetArgs {
    ConfigSetArgs {
        provider: "work".to_string(),
        provider_kind: None,
        default: false,
        google: GoogleSetArgs {
            service_account: None,
            project_id: None,
            location: None,
            default_model: None,
        },
        shared_api: ApiKeySetArgs {
            api_key: key.map(|k| k.to_string()),
            base_url: None,
            shared_default_model: Some("shared-m".to_string()),
        },
        secret_env: None,
        encrypt_secrets: encrypt,
    }
}

#[test]
fn provider_entries_upsert_lookup_and_remove() {
    let mut cfg = AppConfig::default();
    cfg.upsert_provider("work".to_string(), ProviderConfig::Openai(api_cfg(Some("k1"))));
    cfg.upsert_provider("home".to_string(), ProviderConfig::Anthropic(api_cfg(Some("k2"))));
    // Replacing an existing entry keeps one entry under the name.
    cfg.upsert_provider("work".to_string(), ProviderConfig::Openai(api_cfg(Some("k3"))));

    let looked = cfg.require_provider("work").expect("provider");
    match looked {
        ProviderConfig::Openai(c) => assert_eq!(c.api_key.as_deref(), Some("k3")),
        _ => panic!("wrong entry"),
    }
    assert!(matches!(cfg.require_provider("absent"), Err(ConfigError::ProviderNotFound)));

    assert!(cfg.remove_provider("home"));
    assert!(!cfg.remove_provider("home"));
    assert!(matches!(cfg.require_provider("home"), Err(ConfigError::ProviderNotFound)));
}

#[test]
fn default_provider_inference() {
    let mut cfg = AppConfig::default();
    assert!(matches!(
        cfg.infer_default_provider(&None),
        Err(ConfigError::NoDefaultProvider)
    ));
    cfg.default_provider = Some("main".to_string());
    assert_eq!(cfg.infer_default_provider(&None).unwrap(), "main");
    assert_eq!(
        cfg.infer_default_provider(&Some("other".to_string())).unwrap(),
        "other"
    );
}

#[test]
fn kind_inference_ignores_case() {
    assert!(matches!(ProviderKindArg::infer_from_name("google"), Some(ProviderKindArg::Google)));
    assert!(matches!(
        ProviderKindArg::infer_from_name("Anthropic"),
        Some(ProviderKindArg::Anthropic)
    ));
    assert!(matches!(ProviderKindArg::infer_from_name("OPENAI"), Some(ProviderKindArg::Openai)));
    assert!(ProviderKindArg::infer_from_name("mistral").is_none());
    assert!(matches!(ProviderKind::infer("GoOgLe"), Some(ProviderKind::Google)));
}

#[test]
fn provider_config_kind_and_default_model() {
    let cfg = ProviderConfig::Anthropic(api_cfg(None));
    assert!(matches!(cfg.kind(), ProviderKind::Anthropic));
    assert_eq!(cfg.default_model(), Some("m1"));
}

#[test]
fn round_trip_secret() {
    let secret = "shh";
    let passphrase = "topsecret";
    let encrypted = encrypt_secret(passphrase, secret).expect("encrypt");
    let decrypted = decrypt_secret(passphrase, &encrypted).expect("decrypt");
    assert_eq!(secret, decrypted);
}

#[test]
fn wrong_passphrase_fails_to_decrypt() {
    let encrypted = encrypt_secret("right", "value").expect("encrypt");
    assert!(matches!(decrypt_secret("wrong", &encrypted), Err(SecretError::CryptoFailed)));
}

#[test]
fn resolve_secret_prefers_plaintext() {
    let r = resolve_secret(Some("plain"), None, None, "LABEL", None).expect("resolve");
    assert_eq!(r.as_deref(), Some("plain"));
    let none = resolve_secret(None, None, None, "LABEL", None).expect("resolve");
    assert!(none.is_none());
}

#[test]
fn resolve_secret_decrypts_with_env_passphrase() {
    let encrypted = encrypt_secret("from-env", "api-key-value").expect("encrypt");
    let r = resolve_secret(None, Some(&encrypted), None, "LABEL", Some("from-env"))
        .expect("resolve");
    assert_eq!(r.as_deref(), Some("api-key-value"));
    assert!(matches!(
        resolve_secret(None, Some(&encrypted), None, "LABEL", None),
        Err(SecretError::PassphraseRequired)
    ));
}

#[test]
fn require_secret_reports_missing_credential() {
    let err = require_secret(None, None, None, "LABEL", None, "api key required").unwrap_err();
    match err {
        SecretError::Missing(msg) => assert_eq!(msg, "api key required"),
        other => panic!("unexpected error {:?}", other),
    }
}

#[test]
fn maybe_encrypt_passes_plaintext_through_when_off() {
    let (plain, enc) = maybe_encrypt_secret(Some("k".to_string()), false, None).expect("keep");
    assert_eq!(plain.as_deref(), Some("k"));
    assert!(enc.is_none());
}

#[test]
fn maybe_encrypt_requires_passphrase() {
    assert!(matches!(
        maybe_encrypt_secret(Some("k".to_string()), true, None),
        Err(SecretError::PassphraseRequired)
    ));
    let (plain, enc) = maybe_encrypt_secret(Some("k".to_string()), true, Some("pw")).expect("enc");
    assert!(plain.is_none());
    let enc = enc.expect("encrypted form");
    assert_eq!(decrypt_secret("pw", &enc).unwrap(), "k");
}

#[test]
fn build_provider_config_per_vendor() {
    let google = build_provider_config(ProviderKind::Google, &set_args(None, false), None)
        .expect("google entry");
    assert!(matches!(google, ProviderConfig::Google(_)));
    assert_eq!(google.default_model(), Some("shared-m"));

    let err = build_provider_config(ProviderKind::Anthropic, &set_args(None, false), None)
        .unwrap_err();
    assert!(matches!(err, ConfigError::ApiKeyRequired));

    let openai = build_provider_config(ProviderKind::Openai, &set_args(Some("k"), false), None)
        .expect("openai entry");
    match &openai {
        ProviderConfig::Openai(c) => assert_eq!(c.api_key.as_deref(), Some("k")),
        _ => panic!("wrong kind"),
    }

    let needs_pass =
        build_provider_config(ProviderKind::Openai, &set_args(Some("k"), true), None).unwrap_err();
    assert!(matches!(needs_pass, ConfigError::Secret(SecretError::PassphraseRequired)));

    let encrypted =
        build_provider_config(ProviderKind::Openai, &set_args(Some("k"), true), Some("pw"))
            .expect("encrypted entry");
    match encrypted {
        ProviderConfig::Openai(c) => {
            assert!(c.api_key.is_none());
            let enc = c.encrypted_api_key.expect("stored encrypted");
            assert_eq!(decrypt_secret("pw", &enc).unwrap(), "k");
        }
        _ => panic!("wrong kind"),
    }
}
