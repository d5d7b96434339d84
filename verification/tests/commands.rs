use local_remote_share::commands::{
    build_link, create_share_step, effective_password, share_infos, stop_tunnel_after_revoke,
    CreateAction, CreateEvent,
};
use local_remote_share::share::{Share, ShareRegistry};
use std::path::PathBuf;

#[test]
fn build_link_formats_correctly() {
    let base = Some("https://x.trycloudflare.com".to_string());
    assert_eq!(
        build_link(&base, "abc"),
        Some("https://x.trycloudflare.com/d/abc".to_string())
    );
}

#[test]
fn build_link_none_when_no_base() {
    assert_eq!(build_link(&None, "abc"), None);
}

#[test]
fn share_infos_describe_every_share() {
    let mut r = ShareRegistry::new();
    r.insert(Share::new("a".into(), PathBuf::from("/tmp/a"), "a.txt".into(), 3, None));
    r.insert(Share::new("b".into(), PathBuf::from("/tmp/b"), "b.txt".into(), 4, Some("h".into())));
    let base = Some("https://x.trycloudflare.com".to_string());
    let mut infos = share_infos(&base, &r);
    infos.sort_by(|x, y| x.token.cmp(&y.token));
    assert_eq!(infos.len(), 2);
    assert_eq!(infos[0].name, "a.txt");
    assert!(!infos[0].has_password);
    assert_eq!(infos[1].size, 4);
    assert!(infos[1].has_password);
    assert_eq!(infos[1].link.as_deref(), Some("https://x.trycloudflare.com/d/b"));
    assert!(share_infos(&None, &r).iter().all(|i| i.link.is_none()));
}

#[test]
fn empty_password_means_no_password() {
    assert_eq!(effective_password(Some(String::new())), None);
    assert_eq!(effective_password(None), None);
    assert_eq!(effective_password(Some("pw".into())), Some("pw".to_string()));
}

#[test]
fn tunnel_is_started_lazily_and_failures_roll_back() {
    assert_eq!(create_share_step(CreateEvent::Registered { tunnel_running: true }), CreateAction::Respond);
    assert_eq!(create_share_step(CreateEvent::Registered { tunnel_running: false }), CreateAction::StartTunnel);
    assert_eq!(create_share_step(CreateEvent::TunnelStarted), CreateAction::Respond);
    assert_eq!(create_share_step(CreateEvent::TunnelFailed), CreateAction::RollBack);
    assert!(stop_tunnel_after_revoke(0));
    assert!(!stop_tunnel_after_revoke(2));
}
