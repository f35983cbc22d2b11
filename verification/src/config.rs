//! The parts of the configuration file that hold no floating-point value.

use vstd::prelude::*;

verus! {

/// The HTTP server's settings.
#[derive(Debug, Clone)]
pub struct HttpConfig {
    pub server_port: u16,
}

/// Application settings.
#[derive(Debug, Clone)]
pub struct AppConfig {
    pub enable_streaming: bool,
}

/// Code graph settings: where embeddings are stored and how they are made.
#[derive(Debug, Clone)]
pub struct CodeGraphConfig {
    pub embedding_db_uri: String,
    pub embedding: EmbeddingConfig,
}

/// The embedding service.
#[derive(Debug, Clone)]
pub struct EmbeddingConfig {
    pub model: String,
    pub api_token: String,
    pub api_base_url: String,
    pub dimensions: Option<usize>,
}

/// Agent step limits and language.
#[derive(Debug, Clone)]
pub struct AgentConfig {
    pub conductor_max_steps: Option<usize>,
    pub coding_max_steps: Option<usize>,
    pub repo_max_steps: Option<usize>,
    pub lang: Option<String>,
}

} // verus!
