use planpool::store::{
    classify, join, plan_files, plan_meta, sweep_step, sweep_candidate, sweep_reclaims, unix_now, valid_id, Lookup, Meta,
    Store,
};

const ID: &str = "879255f0c80239b707ef77159a2d7980";

fn meta(expires_at: u64) -> Meta {
    plan_meta(ID.to_string(), 100, expires_at - 100, 4)
}

#[test]
fn plans_expire_at_their_expiry_second() {
    let m = meta(160);
    assert_eq!(m.created_at, 100);
    assert_eq!(m.expires_at, 160);
    assert!(!m.is_expired(159));
    assert!(m.is_expired(160));
    assert!(m.is_expired(161));
}

#[test]
fn expiry_saturates_instead_of_wrapping() {
    let m = plan_meta(ID.to_string(), u64::MAX - 5, 60, 0);
    assert_eq!(m.expires_at, u64::MAX);
    let m = plan_meta(ID.to_string(), 10, 0, 0);
    assert_eq!(m.expires_at, 10);
    assert!(m.is_expired(10)); // a zero TTL is gone at once
}

#[test]
fn store_paths_join_the_directory() {
    let store = Store::new("./plans".to_string());
    assert_eq!(store.dir(), "./plans");
    assert_eq!(store.html_path(ID), format!("./plans/{ID}.html"));
    assert_eq!(store.meta_path(ID), format!("./plans/{ID}.json"));
    let store = Store::new("/var/lib/planpool/".to_string());
    assert_eq!(store.meta_path(ID), format!("/var/lib/planpool/{ID}.json"));
    let store = Store::new(String::new());
    assert_eq!(store.html_path(ID), format!("{ID}.html"));
    assert_eq!(join("a", "b"), "a/b");
    assert_eq!(join("a/", "b"), "a/b");
}

#[test]
fn only_plan_ids_reach_the_disk() {
    let store = Store::new("./plans".to_string());
    assert_eq!(store.sidecar_for(ID), Some(format!("./plans/{ID}.json")));
    assert_eq!(store.sidecar_for("../../etc/passwd"), None);
    assert_eq!(store.sidecar_for(""), None);
}

#[test]
fn lookups_tell_absent_expired_and_live_apart() {
    assert!(matches!(classify(None, true, 5), Lookup::Absent));
    assert!(matches!(classify(Some(meta(160)), true, 160), Lookup::Expired));
    assert!(matches!(classify(Some(meta(160)), false, 160), Lookup::Expired));
    // a sidecar without its document is no plan (yet)
    assert!(matches!(classify(Some(meta(160)), false, 159), Lookup::Absent));
    match classify(Some(meta(160)), true, 159) {
        Lookup::Live(m) => {
            assert_eq!(m.id, ID);
            assert_eq!(m.expires_at, 160);
        }
        _ => panic!("plan should be live"),
    }
}

#[test]
fn only_live_plans_count_as_existing() {
    assert!(classify(Some(meta(160)), true, 159).is_live());
    assert!(!classify(Some(meta(160)), true, 160).is_live());
    assert!(!classify(Some(meta(160)), false, 159).is_live());
    assert!(!classify(None, true, 0).is_live());
}

#[test]
fn sweep_reclaims_expired_and_unparseable_sidecars() {
    assert!(sweep_reclaims(&None, 0));
    assert!(sweep_reclaims(&Some(meta(160)), 160));
    assert!(!sweep_reclaims(&Some(meta(160)), 159));
}

#[test]
fn sweep_considers_only_plan_sidecars() {
    assert_eq!(sweep_candidate(&format!("{ID}.json")), Some(ID.to_string()));
    assert_eq!(sweep_candidate(&format!("{ID}.html")), None);
    assert_eq!(sweep_candidate("notes.json"), None);
    assert_eq!(sweep_candidate(".json"), None);
    assert_eq!(sweep_candidate(&format!("{}.json", ID.to_uppercase())), None);
    assert_eq!(sweep_candidate(&format!("{ID}.json.bak")), None);
}

#[test]
fn prepared_uploads_get_fresh_ids_and_the_clock() {
    let store = Store::new("./plans".to_string());
    let before = unix_now().unwrap();
    let a = store.prepare_put(b"<h1>plan</h1>", 60).unwrap();
    let b = store.prepare_put(b"<h1>plan</h1>", 60).unwrap();
    let after = unix_now().unwrap();
    assert!(valid_id(&a.id) && valid_id(&b.id));
    assert_ne!(a.id, b.id);
    assert!(before <= a.created_at && a.created_at <= after);
    assert_eq!(a.expires_at, a.created_at + 60);
    assert_eq!(a.size, 13);
    assert!(!a.is_expired(a.created_at));
    assert!(a.is_expired(a.created_at + 60));
}

#[test]
fn the_clock_reads_after_the_epoch() {
    let now = unix_now().expect("clock after the epoch");
    assert!(now > 1_600_000_000);
}

#[test]
fn different_plans_use_different_files() {
    let store = Store::new("./plans".to_string());
    let other = "0123456789abcdef0123456789abcdef";
    assert_ne!(store.meta_path(ID), store.meta_path(other));
    assert_ne!(store.html_path(ID), store.html_path(other));
    assert_ne!(store.html_path(ID), store.meta_path(ID));
    assert_eq!(sweep_candidate(&format!("{other}.json")), Some(other.to_string()));
}

#[test]
fn uploads_are_stamped_with_the_clock_reading() {
    let m = planpool::store::upload_meta(ID.to_string(), Some(1_000), b"<p>", 60).unwrap();
    assert_eq!((m.id.as_str(), m.created_at, m.expires_at, m.size), (ID, 1_000, 1_060, 3));
    let m = planpool::store::upload_meta(ID.to_string(), Some(u64::MAX), b"", 60).unwrap();
    assert_eq!(m.expires_at, u64::MAX);
    assert!(planpool::store::upload_meta(ID.to_string(), None, b"<p>", 60).is_none());
}

#[test]
fn plan_files_are_named_after_valid_ids_only() {
    assert_eq!(plan_files(ID), Some((format!("{ID}.html"), format!("{ID}.json"))));
    assert_eq!(plan_files("../../etc/passwd"), None);
    assert_eq!(plan_files(""), None);
}

#[test]
fn sweep_counts_each_reclaimed_plan_once() {
    assert_eq!(sweep_step(0, &None, 0), (1, true));
    assert_eq!(sweep_step(3, &Some(meta(160)), 160), (4, true));
    assert_eq!(sweep_step(3, &Some(meta(160)), 159), (3, false));
}
