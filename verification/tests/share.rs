use local_remote_share::reply::{count_download, landing_page, Reply};
use local_remote_share::share::{Share, ShareRegistry, ShareSource};
use local_remote_share::state::add_share;
use std::path::PathBuf;

fn sample(token: &str) -> Share {
    Share::new(token.to_string(), PathBuf::from("/tmp/x"), "x".into(), 10, None)
}

#[test]
fn insert_and_get() {
    let mut r = ShareRegistry::new();
    r.insert(sample("abc"));
    assert_eq!(r.get("abc").unwrap().name, "x");
    assert_eq!(r.len(), 1);
}

#[test]
fn remove_makes_it_gone() {
    let mut r = ShareRegistry::new();
    r.insert(sample("abc"));
    assert!(r.remove("abc").is_some());
    assert!(r.get("abc").is_none());
    assert!(r.is_empty());
}

#[test]
fn increment_download_count_via_get_mut() {
    let mut r = ShareRegistry::new();
    r.insert(sample("abc"));
    r.get_mut("abc").unwrap().download_count += 1;
    assert_eq!(r.get("abc").unwrap().download_count, 1);
}

#[test]
fn list_returns_all() {
    let mut r = ShareRegistry::new();
    r.insert(sample("a"));
    r.insert(sample("b"));
    assert_eq!(r.list().len(), 2);
}

#[test]
fn insert_under_a_held_token_replaces_the_share() {
    let mut r = ShareRegistry::new();
    r.insert(sample("abc"));
    let mut other = sample("abc");
    other.name = "y".into();
    r.insert(other);
    assert_eq!(r.len(), 1);
    assert_eq!(r.get("abc").unwrap().name, "y");
    assert!(r.get("abd").is_none());
    assert!(r.remove("zzz").is_none());
    assert_eq!(r.len(), 1);
}

#[test]
fn new_share_starts_uncounted() {
    let s = sample("t");
    assert_eq!(s.download_count, 0);
    assert!(matches!(&s.source, ShareSource::Path(p) if p == &PathBuf::from("/tmp/x")));
    let c = s.clone();
    assert_eq!(c.token, "t");
    assert_eq!(c.created_at, s.created_at);
}

#[test]
fn revoked_token_lands_on_404() {
    let mut r = ShareRegistry::new();
    let token = add_share(&mut r, PathBuf::from("/tmp/data"), Some("data.bin".into()), 4, None);
    assert_eq!(token.len(), 32);
    assert_eq!(r.get(&token).unwrap().name, "data.bin");
    assert_eq!(landing_page(&token, r.get(&token), &None).status(), 200);
    assert!(r.remove(&token).is_some());
    assert!(matches!(landing_page(&token, r.get(&token), &None), Reply::NotFound(_)));
}

#[test]
fn add_share_names_and_protects() {
    let mut r = ShareRegistry::new();
    let token = add_share(&mut r, PathBuf::from("/"), None, 5, Some("pw".into()));
    let share = r.get(&token).unwrap();
    assert_eq!(share.name, "file");
    assert_eq!(share.size, 5);
    assert!(share.password_hash.is_some());
    assert!(local_remote_share::password::verify_password("pw", share.password_hash.as_ref().unwrap()));
}

#[test]
fn count_download_counts_one_share() {
    let mut r = ShareRegistry::new();
    r.insert(sample("a"));
    r.insert(sample("b"));
    count_download(&mut r, "a");
    count_download(&mut r, "a");
    count_download(&mut r, "missing");
    assert_eq!(r.get("a").unwrap().download_count, 2);
    assert_eq!(r.get("b").unwrap().download_count, 0);
}
