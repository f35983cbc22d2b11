//! The settings of the embedding service behind semantic code search: which
//! token, address, model and vector size it is used with.

use vstd::prelude::*;
use crate::config::EmbeddingConfig;
use crate::analyzers::common::{strip_ends, strip_ends_exec};

verus! {

/// The settings the embedding service is used with.
#[derive(Debug)]
pub struct EmbeddingSettings {
    pub api_token: String,
    /// The service's base address, when the configuration gives one.
    pub base_url: Option<String>,
    pub model: String,
    /// The number of dimensions of a vector.
    pub dimensions: i32,
}

/// The model used when the configuration names none.
pub open spec fn default_model() -> Seq<char> {
    "Qwen/Qwen3-Embedding-4B"@
}

/// The vector size used when the configuration gives none.
pub open spec fn default_dimensions() -> i32 {
    2560
}

/// The token: the configured one when not empty, else the one from the
/// environment.
pub open spec fn chosen_token(env_token: Option<Seq<char>>, config: Option<EmbeddingConfig>) -> Option<Seq<char>> {
    match config {
        Some(c) => if c.api_token@.len() > 0 { Some(c.api_token@) } else { env_token },
        None => env_token,
    }
}

/// The text of an optional string.
pub open spec fn opt_seq(s: Option<String>) -> Option<Seq<char>> {
    match s {
        Some(x) => Some(x@),
        None => None,
    }
}

/// The settings of the embedding service from the token found in the
/// environment and the configuration: the configuration's token, address
/// and model where they are not empty, and its vector size where it gives
/// one (as an `i32`), else the environment's token, no address, the default
/// model and 2560 dimensions. Fails when neither gives a token.
pub fn embedding_settings(env_token: Option<String>, config: Option<&EmbeddingConfig>) -> (res: Result<EmbeddingSettings, String>)
    ensures
        match chosen_token(opt_seq(env_token), match config { Some(c) => Some(*c), None => None }) {
            None => res matches Err(e) && e@ == "API Key not found in config or environment"@,
            Some(t) => res matches Ok(s) && {
                &&& s.api_token@ == t
                &&& opt_seq(s.base_url) == (match config {
                    Some(c) => if c.api_base_url@.len() > 0 { Some(c.api_base_url@) } else { None },
                    None => None,
                })
                &&& s.model@ == (match config {
                    Some(c) => if c.model@.len() > 0 { c.model@ } else { default_model() },
                    None => default_model(),
                })
                &&& s.dimensions == (match config {
                    Some(c) => match c.dimensions {
                        Some(d) => d as i32,
                        None => default_dimensions(),
                    },
                    None => default_dimensions(),
                })
            },
        },
{
    let mut api_token = env_token;
    let mut base_url: Option<String> = None;
    let mut model = String::from_str("Qwen/Qwen3-Embedding-4B");
    let mut dimensions: i32 = 2560;
    match config {
        Some(conf) => {
            if conf.api_token.as_str().unicode_len() > 0 {
                api_token = Some(conf.api_token.clone());
            }
            if conf.api_base_url.as_str().unicode_len() > 0 {
                base_url = Some(conf.api_base_url.clone());
            }
            if conf.model.as_str().unicode_len() > 0 {
                model = conf.model.clone();
            }
            match conf.dimensions {
                Some(dim) => {
                    dimensions = dim as i32;
                },
                None => {},
            }
        },
        None => {},
    }
    match api_token {
        Some(api_token) => Ok(EmbeddingSettings { api_token, base_url, model, dimensions }),
        None => Err(String::from_str("API Key not found in config or environment")),
    }
}

/// `s` without any occurrence of `c`.
pub open spec fn without_char(s: Seq<char>, c: char) -> Seq<char>
    decreases s.len(),
{
    if s.len() == 0 {
        Seq::empty()
    } else {
        let rest = without_char(s.drop_last(), c);
        if s.last() == c { rest } else { rest.push(s.last()) }
    }
}

/// The base address the embedding service is called at: the one given, or
/// the default service, without backticks and without surrounding white space.
pub open spec fn clean_base_url(base_url: Option<Seq<char>>) -> Seq<char> {
    let given = match base_url {
        Some(u) => u,
        None => "https://api.siliconflow.cn/v1"@,
    };
    strip_ends(without_char(given, '`'), 1)
}

/// The base address the embedding service is called at (see `clean_base_url`).
pub fn embedding_base_url(base_url: Option<String>) -> (res: String)
    ensures
        res@ == clean_base_url(opt_seq(base_url)),
{
    let given = match base_url {
        Some(u) => u,
        None => String::from_str("https://api.siliconflow.cn/v1"),
    };
    let mut kept = String::new();
    let mut i: usize = 0;
    let n = given.as_str().unicode_len();
    while i < n
        invariant
            i <= n,
            n == given@.len(),
            kept@ == without_char(given@.subrange(0, i as int), '`'),
        decreases n - i,
    {
        let c = given.as_str().get_char(i);
        proof {
            let sub = given@.subrange(0, i + 1);
            assert(sub.drop_last() =~= given@.subrange(0, i as int));
            assert(sub.last() == given@[i as int]);
        }
        if c != '`' {
            crate::text::string_push(&mut kept, c);
        }
        i = i + 1;
    }
    assert(given@.subrange(0, n as int) =~= given@);
    strip_ends_exec(kept.as_str(), 1)
}

} // verus!
