//! Server settings, as far as the request handling reads them, and their
//! validation.

use vstd::prelude::*;
use vstd::string::*;
use crate::cli::{trim_slashes, trim_trailing_slashes};
use crate::text::{opt_view, owned};

verus! {

/// Server settings read by the request handling.
#[derive(Debug)]
pub struct Config {
    /// Bearer token required for uploads and deletes.
    pub token: String,
    /// TTL in seconds applied when an upload doesn't specify one.
    pub default_ttl: u64,
    /// Requested TTLs are clamped to this many seconds.
    pub max_ttl: u64,
    /// Upload size limit in bytes.
    pub max_body_bytes: u64,
    /// Base URL used in returned plan links; when unset the request's Host
    /// header is used.
    pub public_url: Option<String>,
}

/// The shortest accepted token, in characters.
pub const MIN_TOKEN_CHARS: usize = 16;

/// The message for a token that is too short.
pub open spec fn short_token_error() -> Seq<char> {
    "PLANPOOL_TOKEN must be at least 16 characters"@
}

impl Config {
    /// Checks the settings: the token must be at least 16 characters long.
    /// A public URL loses its trailing slashes.
    pub fn validate(config: Config) -> (r: Result<Config, String>)
        ensures
            config.token@.len() < 16 ==> (r matches Err(e) && e@ == short_token_error()),
            config.token@.len() >= 16 ==> (r matches Ok(c) && {
                &&& c.token@ == config.token@
                &&& c.default_ttl == config.default_ttl
                &&& c.max_ttl == config.max_ttl
                &&& c.max_body_bytes == config.max_body_bytes
                &&& opt_view(c.public_url) == match config.public_url {
                    Some(u) => Some(trim_trailing_slashes(u@)),
                    None => None::<Seq<char>>,
                }
            }),
    {
        if config.token.as_str().unicode_len() < MIN_TOKEN_CHARS {
            return Err(owned("PLANPOOL_TOKEN must be at least 16 characters"));
        }
        let Config { token, default_ttl, max_ttl, max_body_bytes, public_url } = config;
        let public_url = match public_url {
            Some(url) => Some(trim_slashes(url.as_str())),
            None => None,
        };
        Ok(Config { token, default_ttl, max_ttl, max_body_bytes, public_url })
    }
}

} // verus!
