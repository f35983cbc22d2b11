use codegraph::config::EmbeddingConfig;
use codegraph::services::{embedding_base_url, embedding_settings};

fn config(model: &str, token: &str, url: &str, dimensions: Option<usize>) -> EmbeddingConfig {
    EmbeddingConfig {
        model: model.to_string(),
        api_token: token.to_string(),
        api_base_url: url.to_string(),
        dimensions,
    }
}

#[test]
fn settings_prefer_the_configuration() {
    let c = config("m1", "cfg-token", "http://x", Some(1024));
    let s = embedding_settings(Some("env-token".to_string()), Some(&c)).unwrap();
    assert_eq!(s.api_token, "cfg-token");
    assert_eq!(s.base_url.as_deref(), Some("http://x"));
    assert_eq!(s.model, "m1");
    assert_eq!(s.dimensions, 1024);
}

#[test]
fn settings_fall_back_to_environment_and_defaults() {
    let c = config("", "", "", None);
    let s = embedding_settings(Some("env-token".to_string()), Some(&c)).unwrap();
    assert_eq!(s.api_token, "env-token");
    assert_eq!(s.base_url, None);
    assert_eq!(s.model, "Qwen/Qwen3-Embedding-4B");
    assert_eq!(s.dimensions, 2560);
    let s = embedding_settings(Some("t".to_string()), None).unwrap();
    assert_eq!(s.dimensions, 2560);
    assert_eq!(
        embedding_settings(None, Some(&c)).unwrap_err(),
        "API Key not found in config or environment"
    );
    assert!(embedding_settings(None, None).is_err());
}

#[test]
fn base_url_is_cleaned() {
    assert_eq!(embedding_base_url(None), "https://api.siliconflow.cn/v1");
    assert_eq!(embedding_base_url(Some("  `https://e.example/v2`\n".to_string())), "https://e.example/v2");
    assert_eq!(embedding_base_url(Some("``".to_string())), "");
}
