//! The `pp` client's side of the planpool API: where each request goes,
//! which credential it carries, and what each answer means. Sending the
//! requests and reading bodies is done by the caller.

use vstd::prelude::*;
use vstd::string::*;
use crate::text::{decimal, decimal_string, opt_view, owned};

verus! {

/// A client of one planpool server.
pub struct Client {
    base_url: String,
    token: Option<String>,
}

/// The message when an authenticated request is attempted without a token.
pub open spec fn missing_token_error() -> Seq<char> {
    "PLANPOOL_TOKEN is not set"@
}

impl Client {
    /// The server's base URL.
    pub closed spec fn base(&self) -> Seq<char> {
        self.base_url@
    }

    /// The bearer token, if one is configured.
    pub closed spec fn credential(&self) -> Option<Seq<char>> {
        opt_view(self.token)
    }

    /// A client of the server at `base_url`, authenticating with `token`.
    pub fn new(base_url: String, token: Option<String>) -> (c: Client)
        ensures
            c.base() == base_url@,
            c.credential() == opt_view(token),
    {
        Client { base_url, token }
    }

    /// Whether a token is configured.
    pub fn has_token(&self) -> (r: bool)
        ensures
            r == self.credential() is Some,
    {
        self.token.is_some()
    }

    /// The `Authorization` header value for uploads and deletes.
    pub fn auth(&self) -> (r: Result<String, String>)
        ensures
            match self.credential() {
                Some(t) => r matches Ok(h) && h@ == "Bearer "@ + t,
                None => r matches Err(e) && e@ == missing_token_error(),
            },
    {
        match &self.token {
            Some(token) => {
                let mut h = owned("Bearer ");
                h.append(token.as_str());
                Ok(h)
            },
            None => Err(owned("PLANPOOL_TOKEN is not set")),
        }
    }

    /// Where uploads go, with the lifetime in canonical seconds when one is
    /// asked for.
    pub fn push_url(&self, ttl: Option<u64>) -> (r: String)
        ensures
            r@ == self.base() + "/plans"@ + match ttl {
                Some(t) => "?ttl="@ + decimal(t as nat),
                None => Seq::<char>::empty(),
            },
    {
        let mut url = owned(self.base_url.as_str());
        url.append("/plans");
        match ttl {
            Some(t) => {
                url.append("?ttl=");
                let digits = decimal_string(t);
                url.append(digits.as_str());
            },
            None => {},
        }
        proof {
            if ttl is None {
                assert(url@ =~= self.base() + "/plans"@ + Seq::<char>::empty());
            }
        }
        url
    }

    /// The URL of plan `id`, which deletions address.
    pub fn plan_url(&self, id: &str) -> (r: String)
        ensures
            r@ == self.base() + "/plans/"@ + id@,
    {
        let mut url = owned(self.base_url.as_str());
        url.append("/plans/");
        url.append(id);
        url
    }

    /// The URL of the liveness check.
    pub fn health_url(&self) -> (r: String)
        ensures
            r@ == self.base() + "/healthz"@,
    {
        let mut url = owned(self.base_url.as_str());
        url.append("/healthz");
        url
    }
}

/// Whether an upload was stored (201 Created).
pub fn push_accepted(status: u16) -> (r: bool)
    ensures
        r == (status == 201),
{
    status == 201
}

/// Whether a deletion went through (204 No Content).
pub fn delete_accepted(status: u16) -> (r: bool)
    ensures
        r == (status == 204),
{
    status == 204
}

/// Whether the liveness check answered with a success status (2xx).
pub fn health_ok(status: u16) -> (r: bool)
    ensures
        r == (200 <= status <= 299),
{
    200 <= status && status <= 299
}

/// The message for a failed liveness check; `status_text` is the status as
/// displayed (code and reason).
pub fn health_error(status_text: &str) -> (r: String)
    ensures
        r@ == "healthz returned "@ + status_text@,
{
    let mut e = owned("healthz returned ");
    e.append(status_text);
    e
}

/// What the token probe's status says. The probe is an empty upload: the
/// server answers 400 (empty body) to an accepted token and 401 to a
/// refused one.
pub fn token_probe(status: u16) -> (r: Result<(), String>)
    ensures
        status == 400 ==> r is Ok,
        status == 401 ==> (r matches Err(e) && e@ == "token rejected by server"@),
        status != 400 && status != 401 ==> (r matches Err(e) && e@ == "unexpected status "@
            + decimal(status as nat) + " from token probe"@),
{
    if status == 400 {
        Ok(())
    } else if status == 401 {
        Err(owned("token rejected by server"))
    } else {
        let mut e = owned("unexpected status ");
        let digits = decimal_string(status as u64);
        e.append(digits.as_str());
        e.append(" from token probe");
        Err(e)
    }
}

/// The message for a refused request: the server's own error text with the
/// status, or the bare status when the body holds no error text.
pub fn api_error_message(server_error: Option<&str>, status_text: &str) -> (r: String)
    ensures
        r@ == match server_error {
            Some(e) => e@ + " ("@ + status_text@ + ")"@,
            None => "server returned "@ + status_text@,
        },
{
    match server_error {
        Some(e) => {
            let mut m = owned(e);
            m.append(" (");
            m.append(status_text);
            m.append(")");
            m
        },
        None => {
            let mut m = owned("server returned ");
            m.append(status_text);
            m
        },
    }
}

/// The URL the client deletes and the URL the server hands out for the same
/// ID on the same base agree, and both lead back to the ID.
pub proof fn law_client_plan_urls_lead_back(base: Seq<char>, id: Seq<char>)
    requires
        crate::id::is_valid_id(id),
    ensures
        crate::cli::id_candidate(base + "/plans/"@ + id) == id,
        crate::cli::refers_to_plan(base + "/plans/"@ + id),
        base + "/plans/"@ + id == crate::api::plan_link(Some(base), None, id),
{
    crate::api::law_plan_links_lead_back(Some(base), None, id);
}

} // verus!
