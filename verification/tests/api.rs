use planpool::api::{
    admit_upload, authorized, effective_ttl, error, plan_url, remove_reply, require_auth,
    upload_reply, view_reply, ViewOutcome,
};
use planpool::cli::extract_id;
use planpool::config::Config;
use planpool::store::plan_meta;

const TOKEN: &str = "a-long-enough-token";
const ID: &str = "879255f0c80239b707ef77159a2d7980";

fn config(public_url: Option<&str>) -> Config {
    Config {
        token: TOKEN.to_string(),
        default_ttl: 604_800,
        max_ttl: 2_592_000,
        max_body_bytes: 5_242_880,
        public_url: public_url.map(|s| s.to_string()),
    }
}

#[test]
fn bearer_token_must_match_exactly() {
    assert!(authorized(Some("Bearer a-long-enough-token"), TOKEN));
    assert!(!authorized(Some("Bearer a-long-enough-tokeN"), TOKEN));
    assert!(!authorized(Some("Bearer a-long-enough-token "), TOKEN));
    assert!(!authorized(Some("bearer a-long-enough-token"), TOKEN));
    assert!(!authorized(Some("a-long-enough-token"), TOKEN));
    assert!(!authorized(None, TOKEN));
    assert!(!authorized(Some("Bearer "), TOKEN));
    // an absent credential reads as the empty token
    assert!(authorized(None, ""));
}

#[test]
fn refused_requests_get_401() {
    let cfg = config(None);
    assert!(require_auth(Some("Bearer a-long-enough-token"), &cfg).is_none());
    let denied = require_auth(Some("Bearer nope"), &cfg).unwrap();
    assert_eq!(denied.status, 401);
    assert_eq!(denied.body.error, "missing or invalid bearer token");
}

#[test]
fn ttl_is_defaulted_and_clamped() {
    let cfg = config(None);
    assert_eq!(effective_ttl(None, &cfg), 604_800);
    assert_eq!(effective_ttl(Some(0), &cfg), 1);
    assert_eq!(effective_ttl(Some(60), &cfg), 60);
    assert_eq!(effective_ttl(Some(2_592_000), &cfg), 2_592_000);
    assert_eq!(effective_ttl(Some(u64::MAX), &cfg), 2_592_000);
    let short = Config { default_ttl: 10_000_000, ..config(None) };
    assert_eq!(effective_ttl(None, &short), 2_592_000);
}

#[test]
fn plan_urls_prefer_public_url_then_host() {
    let public = config(Some("https://plans.example.com"));
    assert_eq!(
        plan_url(&public, Some("ignored:8080"), ID),
        format!("https://plans.example.com/plans/{ID}")
    );
    let bare = config(None);
    assert_eq!(
        plan_url(&bare, Some("127.0.0.1:8642"), ID),
        format!("http://127.0.0.1:8642/plans/{ID}")
    );
    assert_eq!(plan_url(&bare, None, ID), format!("/plans/{ID}"));
}

#[test]
fn handed_out_links_lead_back_to_the_plan() {
    for url in [
        plan_url(&config(Some("https://plans.example.com")), None, ID),
        plan_url(&config(None), Some("127.0.0.1:8642"), ID),
        plan_url(&config(None), None, ID),
    ] {
        assert_eq!(extract_id(&url).unwrap(), ID);
    }
}

#[test]
fn uploads_are_checked_for_token_then_body() {
    let cfg = config(None);
    let e = admit_upload(None, 0, &cfg).unwrap();
    assert_eq!((e.status, e.body.error.as_str()), (401, "missing or invalid bearer token"));
    let e = admit_upload(Some("Bearer nope"), 5, &cfg).unwrap();
    assert_eq!(e.status, 401);
    let e = admit_upload(Some("Bearer a-long-enough-token"), 0, &cfg).unwrap();
    assert_eq!((e.status, e.body.error.as_str()), (400, "request body is empty"));
    assert!(admit_upload(Some("Bearer a-long-enough-token"), 5, &cfg).is_none());
}

#[test]
fn stored_uploads_answer_with_their_link() {
    let cfg = config(Some("https://plans.example.com"));
    let meta = plan_meta(ID.to_string(), 1_785_969_984, 120, 13);
    let created = upload_reply(Some(meta), &cfg, None).unwrap();
    assert_eq!(created.id, ID);
    assert_eq!(created.url, format!("https://plans.example.com/plans/{ID}"));
    assert_eq!(created.created_at, 1_785_969_984);
    assert_eq!(created.expires_at, 1_785_970_104);
    assert_eq!(created.lifetime_secs(), 120);
    let e = upload_reply(None, &cfg, None).unwrap_err();
    assert_eq!((e.status, e.body.error.as_str()), (500, "failed to store plan"));
}

#[test]
fn views_answer_404_for_missing_and_expired_plans() {
    assert!(view_reply(ViewOutcome::Served).is_none());
    let e = view_reply(ViewOutcome::NotFound).unwrap();
    assert_eq!((e.status, e.body.error.as_str()), (404, "plan not found or expired"));
    let e = view_reply(ViewOutcome::Unreadable).unwrap();
    assert_eq!((e.status, e.body.error.as_str()), (404, "plan not found or expired"));
    let e = view_reply(ViewOutcome::StoreFailed).unwrap();
    assert_eq!((e.status, e.body.error.as_str()), (500, "failed to read plan"));
}

#[test]
fn deletions_answer_204_or_404() {
    assert_eq!(remove_reply(Some(true)).unwrap(), 204);
    let e = remove_reply(Some(false)).unwrap_err();
    assert_eq!((e.status, e.body.error.as_str()), (404, "plan not found or expired"));
    let e = remove_reply(None).unwrap_err();
    assert_eq!((e.status, e.body.error.as_str()), (500, "failed to delete plan"));
}

#[test]
fn error_replies_carry_status_and_message() {
    let e = error(418, "teapot");
    assert_eq!(e.status, 418);
    assert_eq!(e.body.error, "teapot");
}
