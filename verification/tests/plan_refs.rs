use planpool::cli::{
    base_url, check_input, extract_id, is_plan_id, make_client, open_target, parse_seconds,
    parse_ttl, push_note, push_note_with, token_note, trim_slashes, ttl_from_duration,
};
use planpool::types::PlanCreated;
use planpool::text::decimal_string;

#[test]
fn ttl_accepts_seconds_and_humantime() {
    assert_eq!(parse_ttl("3600"), Ok(3600));
    assert_eq!(parse_ttl("1h"), Ok(3600));
    assert_eq!(parse_ttl("7days"), Ok(604_800));
    assert_eq!(parse_ttl("1h 30m"), Ok(5400));
    assert!(parse_ttl("soon").is_err());
    assert!(parse_ttl("-5").is_err());
}

#[test]
fn extracts_id_from_bare_and_url_forms() {
    let id = "879255f0c80239b707ef77159a2d7980";
    assert_eq!(extract_id(id).unwrap(), id);
    assert_eq!(
        extract_id(&format!("https://plans.example.com/plans/{id}")).unwrap(),
        id
    );
    assert_eq!(
        extract_id(&format!("http://127.0.0.1:8642/plans/{id}/")).unwrap(),
        id
    );
    assert_eq!(
        extract_id(&format!("https://plans.example.com/plans/{id}?x=1#top")).unwrap(),
        id
    );
    assert!(extract_id("not-a-plan").is_err());
    assert!(extract_id("https://plans.example.com/plans/").is_err());
    assert!(extract_id("https://plans.example.com/docs").is_err());
}

#[test]
fn extract_id_takes_bare_ids_and_plan_urls_only() {
    let id = "0123456789abcdef0123456789abcdef";
    assert_eq!(extract_id(&format!("{id}///")).unwrap(), id);
    assert_eq!(extract_id(&format!("{id}?x=1")).unwrap(), id);
    assert_eq!(extract_id(&format!("/plans/{id}#frag")).unwrap(), id);
    assert_eq!(extract_id(&format!("http://h/a/plans/{id}?a=b?c")).unwrap(), id);
    assert!(extract_id(&format!("https://plans.example.com/docs/{id}")).is_err());
    assert!(extract_id(&format!("x/{id}")).is_err());
    assert!(extract_id(&format!("plans/{id}")).is_err());
    assert!(extract_id(&format!("https://h/myplans/{id}")).is_err());
    assert!(extract_id(&format!("{id}/extra")).is_err());
    assert!(extract_id("").is_err());
    assert!(extract_id("/").is_err());
}

#[test]
fn extract_id_error_names_the_input() {
    assert_eq!(
        extract_id("not-a-plan").unwrap_err(),
        "`not-a-plan` is not a plan ID or plan URL"
    );
}

#[test]
fn is_plan_id_matches_the_id_shape() {
    assert!(is_plan_id("879255f0c80239b707ef77159a2d7980"));
    assert!(!is_plan_id("879255F0C80239B707EF77159A2D7980"));
    assert!(!is_plan_id("879255f0c80239b707ef77159a2d798"));
}

#[test]
fn plain_seconds_follow_u64_from_str() {
    assert_eq!(parse_seconds("0"), Some(0));
    assert_eq!(parse_seconds("007"), Some(7));
    assert_eq!(parse_seconds("+5"), Some(5));
    assert_eq!(parse_seconds("18446744073709551615"), Some(u64::MAX));
    assert_eq!(parse_seconds("18446744073709551616"), None);
    assert_eq!(parse_seconds("99999999999999999999"), None);
    assert_eq!(parse_seconds(""), None);
    assert_eq!(parse_seconds("+"), None);
    assert_eq!(parse_seconds("-5"), None);
    assert_eq!(parse_seconds("1h"), None);
    assert_eq!(parse_seconds(" 1"), None);
    for s in ["0", "+5", "42", "18446744073709551615", "x", "-0", "++1"] {
        assert_eq!(parse_seconds(s), s.parse::<u64>().ok(), "for {s:?}");
    }
}

#[test]
fn ttl_falls_back_to_duration_seconds() {
    assert_eq!(ttl_from_duration("90s", Some((90, 0))), Ok(90));
    assert_eq!(ttl_from_duration("1.5s", Some((1, 500_000_000))), Ok(1));
    assert_eq!(
        ttl_from_duration("soon", None),
        Err("`soon` is not seconds or a humantime duration (try \"1h\", \"7days\")".to_string())
    );
    assert_eq!(parse_ttl("1500ms"), Ok(1));
    assert_eq!(parse_ttl("+60"), Ok(60));
    assert_eq!(
        parse_ttl("soon"),
        Err("`soon` is not seconds or a humantime duration (try \"1h\", \"7days\")".to_string())
    );
}

#[test]
fn decimal_spelling_reads_back() {
    for n in [0u64, 7, 10, 3600, 604_800, 1_234_567_890, u64::MAX] {
        let text = decimal_string(n);
        assert_eq!(text, n.to_string());
        assert_eq!(parse_seconds(&text), Some(n));
        assert_eq!(parse_ttl(&text), Ok(n));
    }
}

#[test]
fn base_url_prefers_flag_and_trims_slashes() {
    let flag = Some("https://a.example/".to_string());
    let env = Some("https://b.example//".to_string());
    assert_eq!(base_url(&flag, &env).unwrap(), "https://a.example");
    assert_eq!(base_url(&None, &env).unwrap(), "https://b.example");
    assert_eq!(
        base_url(&None, &None).unwrap_err(),
        "no server URL: set PLANPOOL_URL or pass --url"
    );
    assert_eq!(trim_slashes("///"), "");
    assert_eq!(trim_slashes("a/b"), "a/b");
}

#[test]
fn open_target_keeps_urls_and_builds_them_for_ids() {
    let id = "879255f0c80239b707ef77159a2d7980";
    let env = Some("http://127.0.0.1:8642/".to_string());
    let url = format!("https://plans.example.com/plans/{id}?x=1");
    assert_eq!(open_target(&url, &None, &None).unwrap(), url);
    assert_eq!(
        open_target(id, &None, &env).unwrap(),
        format!("http://127.0.0.1:8642/plans/{id}")
    );
    assert_eq!(
        open_target(id, &None, &None).unwrap_err(),
        "no server URL: set PLANPOOL_URL or pass --url"
    );
    assert_eq!(
        open_target("https://plans.example.com/docs", &None, &env).unwrap_err(),
        "`https://plans.example.com/docs` is not a plan ID or plan URL"
    );
    // an unusable reference is reported before a missing server URL
    assert_eq!(
        open_target("nope", &None, &None).unwrap_err(),
        "`nope` is not a plan ID or plan URL"
    );
    // the opened link leads back to the plan
    let target = open_target(id, &None, &env).unwrap();
    assert_eq!(extract_id(&target).unwrap(), id);
}

#[test]
fn empty_input_is_refused() {
    assert_eq!(check_input(Vec::new()).unwrap_err(), "input is empty");
    assert_eq!(check_input(b"<p>x</p>".to_vec()).unwrap(), b"<p>x</p>".to_vec());
}

#[test]
fn make_client_uses_the_chosen_base_url() {
    let client = make_client(&None, &Some("http://h:1/".to_string()), None).unwrap();
    assert_eq!(client.health_url(), "http://h:1/healthz");
    assert!(!client.has_token());
    assert!(make_client(&None, &None, Some("t".to_string())).is_err());
}

#[test]
fn trimming_twice_changes_nothing() {
    for s in ["https://x.example///", "a/b/", "", "/", "no-slash"] {
        let once = trim_slashes(s);
        assert!(!once.ends_with('/'));
        assert_eq!(trim_slashes(&once), once);
        assert!(s.starts_with(once.as_str()));
    }
}

#[test]
fn duration_texts_are_read_unless_they_may_pass_u64_seconds() {
    assert_eq!(parse_ttl("99999999999s"), Ok(99_999_999_999));
    assert_eq!(parse_ttl("100000000000s"), Ok(100_000_000_000));
    assert_eq!(parse_ttl("000000000001h"), Ok(3600));
    assert_eq!(parse_ttl("1 000 000s"), Ok(1_000_000));
    assert_eq!(parse_ttl("1000000000000ns"), Ok(1000));
    assert_eq!(parse_ttl("1000000000000s"), Ok(1_000_000_000_000));
    assert_eq!(parse_ttl("500000000000y"), Ok(500_000_000_000 * 31_557_600));
    assert_eq!(parse_ttl("18446744073709551614s"), Ok(18_446_744_073_709_551_614));
    assert!(parse_ttl("18446744073709551615s 999999999ns 1ns").is_err());
    assert!(parse_ttl("600000000000y").is_err());
    assert_eq!(parse_ttl("1h 1m 1s"), Ok(3661));
    assert_eq!(parse_ttl("1.5h"), Ok(5400));
    assert_eq!(parse_ttl("2days 30min"), Ok(2 * 86_400 + 1_800));
}

fn created(created_at: u64, expires_at: u64) -> PlanCreated {
    PlanCreated {
        id: "879255f0c80239b707ef77159a2d7980".to_string(),
        url: String::new(),
        created_at,
        expires_at,
    }
}

#[test]
fn push_note_names_id_size_and_lifetime() {
    assert_eq!(
        push_note_with(&created(0, 60), 13, "1m"),
        "pushed 879255f0c80239b707ef77159a2d7980 (13 bytes), expires in 1m"
    );
    assert_eq!(
        push_note(&created(1_000, 1_000 + 7_200), 5),
        "pushed 879255f0c80239b707ef77159a2d7980 (5 bytes), expires in 2h"
    );
    assert_eq!(
        push_note(&created(1_000, 1_000 + 604_800), 5),
        "pushed 879255f0c80239b707ef77159a2d7980 (5 bytes), expires in 7days"
    );
    assert_eq!(
        push_note(&created(10, 5), 0),
        "pushed 879255f0c80239b707ef77159a2d7980 (0 bytes), expires in 0s"
    );
}

#[test]
fn lifetimes_are_spelled_largest_part_first() {
    let note = |secs: u64| push_note(&created(100, 100 + secs), 1);
    let prefix = "pushed 879255f0c80239b707ef77159a2d7980 (1 bytes), expires in ";
    assert_eq!(note(90_061), format!("{prefix}1day 1h 1m 1s"));
    assert_eq!(note(1_209_600), format!("{prefix}14days"));
    assert_eq!(note(2 * 31_557_600 + 2_630_016), format!("{prefix}2years 1month"));
    assert_eq!(note(31_557_600 + 86_400 + 59), format!("{prefix}1year 1day 59s"));
    assert_eq!(note(1), format!("{prefix}1s"));
}

#[test]
fn token_note_asks_for_a_probe_only_with_a_token() {
    assert_eq!(token_note(true), None);
    assert_eq!(
        token_note(false),
        Some("token not set (PLANPOOL_TOKEN) — push/delete unavailable".to_string())
    );
}
