//! The decisions of the planpool HTTP API: who may upload and delete, how
//! long a plan lives, what a plan's URL is and which status each outcome is
//! answered with. Routing, header access and the store's file I/O are done
//! by the caller, which hands the results in as plain values.

use subtle::ConstantTimeEq;
use vstd::prelude::*;
use vstd::string::*;
use crate::config::Config;
use crate::store::Meta;
use crate::text::{opt_view, owned};
use crate::types::{ErrorResponse, PlanCreated};

verus! {

/// An error answer: an HTTP status and the JSON body that explains it.
#[derive(Debug)]
pub struct ErrorReply {
    pub status: u16,
    pub body: ErrorResponse,
}

/// Builds an error answer with the given status and message.
pub fn error(status: u16, message: &str) -> (r: ErrorReply)
    ensures
        r.status == status,
        r.body.error@ == message@,
{
    ErrorReply { status, body: ErrorResponse { error: owned(message) } }
}

// ---------------------------------------------------------------------------
// Authorization
// ---------------------------------------------------------------------------

/// The scheme prefix of a bearer `Authorization` header.
pub open spec fn bearer_prefix() -> Seq<char> {
    "Bearer "@
}

/// The credential carried by an `Authorization` header value: what follows
/// `Bearer `, or the empty text when the header is absent, unreadable or of
/// another scheme.
pub open spec fn bearer_credential(authorization: Option<Seq<char>>) -> Seq<char> {
    match authorization {
        Some(h) => if bearer_prefix().is_prefix_of(h) {
            h.subrange(bearer_prefix().len() as int, h.len() as int)
        } else {
            Seq::empty()
        },
        None => Seq::empty(),
    }
}

/// The view of an optional string slice.
pub open spec fn opt_str_view(s: Option<&str>) -> Option<Seq<char>> {
    match s {
        Some(t) => Some(t@),
        None => None,
    }
}

/// Compares two byte strings in time that does not depend on where they
/// differ.
///
/// Calls `subtle::ConstantTimeEq::ct_eq` on the two slices (subtle 2.6) and
/// turns the resulting `Choice` into a `bool`. As its source shows, it is
/// true exactly when the slices have the same length and the same bytes.
#[verifier::external_body]
fn constant_time_eq(a: &[u8], b: &[u8]) -> (r: bool)
    ensures
        r == (a@ == b@),
{
    a.ct_eq(b).into()
}

/// Whether a request with the `Authorization` header value `authorization`
/// (`None` when absent or not readable as text) carries the bearer token.
/// The comparison takes constant time.
pub fn authorized(authorization: Option<&str>, token: &str) -> (r: bool)
    ensures
        r == (bearer_credential(opt_str_view(authorization)) == token@),
{
    let provided: &str = match authorization {
        Some(h) => {
            proof { reveal_strlit("Bearer "); }
            if crate::cli::starts_with(h, "Bearer ") {
                h.substring_char(7, h.unicode_len())
            } else {
                ""
            }
        },
        None => "",
    };
    proof {
        reveal_strlit("");
        broadcast use vstd::utf8::encode_utf8_decode_utf8;
        assert(provided@ == bearer_credential(opt_str_view(authorization)));
        if provided.spec_bytes() == token.spec_bytes() {
            assert(vstd::utf8::decode_utf8(provided.spec_bytes()) == provided@);
            assert(vstd::utf8::decode_utf8(token.spec_bytes()) == token@);
        }
    }
    constant_time_eq(provided.as_bytes(), token.as_bytes())
}

/// The status of a refused credential.
pub const UNAUTHORIZED: u16 = 401;

/// The message of a refused credential.
pub open spec fn unauthorized_message() -> Seq<char> {
    "missing or invalid bearer token"@
}

/// The 401 answer to send, or `None` if the request is authorized.
pub fn require_auth(authorization: Option<&str>, config: &Config) -> (r: Option<ErrorReply>)
    ensures
        match r {
            None => bearer_credential(opt_str_view(authorization)) == config.token@,
            Some(reply) => {
                &&& bearer_credential(opt_str_view(authorization)) != config.token@
                &&& reply.status == 401
                &&& reply.body.error@ == unauthorized_message()
            },
        },
{
    if authorized(authorization, config.token.as_str()) {
        None
    } else {
        Some(error(UNAUTHORIZED, "missing or invalid bearer token"))
    }
}

/// The header value the client sends for `token` is accepted by a server
/// that holds the same token, and by no server that holds another.
pub proof fn law_client_credential_is_accepted(token: Seq<char>, server_token: Seq<char>)
    ensures
        (bearer_credential(Some(bearer_prefix() + token)) == server_token) <==> (token
            == server_token),
{
    let h = bearer_prefix() + token;
    assert(bearer_prefix().is_prefix_of(h)) by {
        assert(h.subrange(0, bearer_prefix().len() as int) =~= bearer_prefix());
    }
    assert(h.subrange(bearer_prefix().len() as int, h.len() as int) =~= token);
}

// ---------------------------------------------------------------------------
// Lifetimes
// ---------------------------------------------------------------------------

/// The lifetime granted to an upload: the requested TTL, else the server's
/// default, clamped to `1..=max_ttl`.
pub open spec fn granted_ttl(requested: Option<u64>, default_ttl: u64, max_ttl: u64) -> u64 {
    let wanted = match requested {
        Some(t) => t,
        None => default_ttl,
    };
    if wanted < 1 {
        1
    } else if wanted > max_ttl {
        max_ttl
    } else {
        wanted
    }
}

/// The lifetime in seconds granted to an upload that asked for `requested`.
/// Requires a maximum of at least one second.
pub fn effective_ttl(requested: Option<u64>, config: &Config) -> (r: u64)
    requires
        config.max_ttl >= 1,
    ensures
        r == granted_ttl(requested, config.default_ttl, config.max_ttl),
{
    let wanted = match requested {
        Some(t) => t,
        None => config.default_ttl,
    };
    if wanted < 1 {
        1
    } else if wanted > config.max_ttl {
        config.max_ttl
    } else {
        wanted
    }
}

/// Every granted lifetime lies within `1..=max_ttl`, and a request inside
/// that range is granted as asked.
pub proof fn law_granted_ttl_is_bounded(requested: Option<u64>, default_ttl: u64, max_ttl: u64)
    requires
        max_ttl >= 1,
    ensures
        1 <= granted_ttl(requested, default_ttl, max_ttl) <= max_ttl,
        forall|t: u64| requested == Some(t) && 1 <= t <= max_ttl ==> granted_ttl(requested, default_ttl, max_ttl)
            == t,
        requested is None && 1 <= default_ttl <= max_ttl ==> granted_ttl(requested, default_ttl, max_ttl)
            == default_ttl,
{
}

/// Requested lifetimes are clamped, never replaced: a request above the
/// maximum is granted exactly the maximum, a request of zero one second, and
/// a longer request never gets a shorter lifetime than a shorter one.
pub proof fn law_requested_ttl_is_clamped(t: u64, u: u64, default_ttl: u64, max_ttl: u64)
    requires
        max_ttl >= 1,
    ensures
        t > max_ttl ==> granted_ttl(Some(t), default_ttl, max_ttl) == max_ttl,
        t == 0 ==> granted_ttl(Some(t), default_ttl, max_ttl) == 1,
        t <= u ==> granted_ttl(Some(t), default_ttl, max_ttl) <= granted_ttl(Some(u), default_ttl, max_ttl),
        granted_ttl(None, default_ttl, max_ttl) == granted_ttl(Some(default_ttl), default_ttl, max_ttl),
{
}

// ---------------------------------------------------------------------------
// Plan URLs
// ---------------------------------------------------------------------------

/// The link to plan `id`: under the configured public URL, else under the
/// request's `Host`, else a relative path.
pub open spec fn plan_link(public_url: Option<Seq<char>>, host: Option<Seq<char>>, id: Seq<char>) -> Seq<char> {
    match public_url {
        Some(base) => base + "/plans/"@ + id,
        None => match host {
            Some(h) => "http://"@ + h + "/plans/"@ + id,
            None => "/plans/"@ + id,
        },
    }
}

/// The URL at which plan `id` can be viewed.
pub fn plan_url(config: &Config, host: Option<&str>, id: &str) -> (r: String)
    ensures
        r@ == plan_link(opt_view(config.public_url), opt_str_view(host), id@),
{
    let mut url = match &config.public_url {
        Some(base) => owned(base.as_str()),
        None => match host {
            Some(h) => {
                let mut u = owned("http://");
                u.append(h);
                u
            },
            None => String::new(),
        },
    };
    url.append("/plans/");
    url.append(id);
    proof {
        if config.public_url is None && host is None {
            assert(url@ =~= "/plans/"@ + id@);
        }
    }
    url
}

/// Every plan link the server hands out leads back to its plan: the
/// client's `extract_id` takes it to the same ID.
pub proof fn law_plan_links_lead_back(public_url: Option<Seq<char>>, host: Option<Seq<char>>, id: Seq<char>)
    requires
        crate::id::is_valid_id(id),
    ensures
        crate::cli::id_candidate(plan_link(public_url, host, id)) == id,
        crate::cli::refers_to_plan(plan_link(public_url, host, id)),
{
    reveal_strlit("/plans/");
    let prefix = match public_url {
        Some(base) => base + "/plans/"@,
        None => match host {
            Some(h) => "http://"@ + h + "/plans/"@,
            None => "/plans/"@,
        },
    };
    assert(crate::cli::plans_path().is_suffix_of(prefix)) by {
        assert(prefix.subrange(prefix.len() - 7, prefix.len() as int) =~= "/plans/"@);
    }
    assert(plan_link(public_url, host, id) =~= prefix + id + Seq::<char>::empty());
    crate::cli::law_extract_id_recovers(prefix, id, Seq::<char>::empty());
}

// ---------------------------------------------------------------------------
// Handlers
// ---------------------------------------------------------------------------

/// The status of an empty upload.
pub const BAD_REQUEST: u16 = 400;

/// The status of a stored plan.
pub const CREATED: u16 = 201;

/// The status of a deleted plan.
pub const NO_CONTENT: u16 = 204;

/// The status of a plan that does not exist or has expired.
pub const NOT_FOUND: u16 = 404;

/// The status of a failure of the store.
pub const INTERNAL_SERVER_ERROR: u16 = 500;

/// The message of an empty upload.
pub open spec fn empty_body_message() -> Seq<char> {
    "request body is empty"@
}

/// The message for a plan that does not exist or has expired.
pub open spec fn not_found_message() -> Seq<char> {
    "plan not found or expired"@
}

/// Decides whether an upload is taken: the token is checked first, then
/// the body must not be empty. `None` admits the upload; its lifetime is
/// then [`effective_ttl`].
pub fn admit_upload(authorization: Option<&str>, body_len: usize, config: &Config) -> (r: Option<
    ErrorReply,
>)
    ensures
        bearer_credential(opt_str_view(authorization)) != config.token@ ==> (r matches Some(e)
            && e.status == 401 && e.body.error@ == unauthorized_message()),
        bearer_credential(opt_str_view(authorization)) == config.token@ && body_len == 0 ==> (r matches Some(
            e,
        ) && e.status == 400 && e.body.error@ == empty_body_message()),
        bearer_credential(opt_str_view(authorization)) == config.token@ && body_len > 0 ==> r is None,
{
    if let Some(denied) = require_auth(authorization, config) {
        return Some(denied);
    }
    if body_len == 0 {
        return Some(error(BAD_REQUEST, "request body is empty"));
    }
    None
}

/// The answer to an upload once the store has tried to keep it: the
/// stored plan's ID, link and timestamps, or a 500 when storing failed
/// (`stored` is `None`).
pub fn upload_reply(stored: Option<Meta>, config: &Config, host: Option<&str>) -> (r: Result<
    PlanCreated,
    ErrorReply,
>)
    ensures
        match stored {
            Some(meta) => r matches Ok(created) && {
                &&& created.id@ == meta.id@
                &&& created.url@ == plan_link(opt_view(config.public_url), opt_str_view(host), meta.id@)
                &&& created.created_at == meta.created_at
                &&& created.expires_at == meta.expires_at
            },
            None => r matches Err(e) && e.status == 500 && e.body.error@ == "failed to store plan"@,
        },
{
    match stored {
        Some(meta) => {
            let url = plan_url(config, host, meta.id.as_str());
            Ok(PlanCreated { url, id: meta.id, created_at: meta.created_at, expires_at: meta.expires_at })
        },
        None => Err(error(INTERNAL_SERVER_ERROR, "failed to store plan")),
    }
}

/// What serving a plan came to.
#[derive(Debug)]
pub enum ViewOutcome {
    /// The store failed to look the plan up.
    StoreFailed,
    /// The plan does not exist or has expired.
    NotFound,
    /// The plan is live but its document could not be read.
    Unreadable,
    /// The document was read and is served.
    Served,
}

/// The error answer for a view, or `None` when the document is served.
pub fn view_reply(outcome: ViewOutcome) -> (r: Option<ErrorReply>)
    ensures
        match outcome {
            ViewOutcome::Served => r is None,
            ViewOutcome::StoreFailed => r matches Some(e) && e.status == 500 && e.body.error@
                == "failed to read plan"@,
            _ => r matches Some(e) && e.status == 404 && e.body.error@ == not_found_message(),
        },
{
    match outcome {
        ViewOutcome::Served => None,
        ViewOutcome::StoreFailed => Some(error(INTERNAL_SERVER_ERROR, "failed to read plan")),
        ViewOutcome::NotFound => Some(error(NOT_FOUND, "plan not found or expired")),
        ViewOutcome::Unreadable => Some(error(NOT_FOUND, "plan not found or expired")),
    }
}

/// The answer to a deletion once the store has tried it: 204 when the plan
/// existed, 404 when it did not, 500 when the store failed (`deleted` is
/// `None`).
pub fn remove_reply(deleted: Option<bool>) -> (r: Result<u16, ErrorReply>)
    ensures
        match deleted {
            Some(true) => r == Ok::<u16, ErrorReply>(204),
            Some(false) => r matches Err(e) && e.status == 404 && e.body.error@ == not_found_message(),
            None => r matches Err(e) && e.status == 500 && e.body.error@ == "failed to delete plan"@,
        },
{
    match deleted {
        Some(true) => Ok(NO_CONTENT),
        Some(false) => Err(error(NOT_FOUND, "plan not found or expired")),
        None => Err(error(INTERNAL_SERVER_ERROR, "failed to delete plan")),
    }
}

} // verus!
