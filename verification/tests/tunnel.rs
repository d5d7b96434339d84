use local_remote_share::tunnel::{
    check_tunnel, parse_tunnel_url, scan_start, scan_step, tunnel_args, ChildStatus, ScanAction,
    ScanEvent, Stream, TunnelCheck,
};

#[test]
fn parses_url_from_banner_line() {
    let line = "2024-01-01 INF |  https://brave-fox-1234.trycloudflare.com  |";
    assert_eq!(
        parse_tunnel_url(line),
        Some("https://brave-fox-1234.trycloudflare.com".to_string())
    );
}

#[test]
fn ignores_non_tunnel_url() {
    let line = "Visit https://developers.cloudflare.com for docs";
    assert_eq!(parse_tunnel_url(line), None);
}

#[test]
fn returns_none_when_no_url() {
    assert_eq!(parse_tunnel_url("starting tunnel..."), None);
}

#[test]
fn url_ends_at_whitespace_or_control_and_the_first_tunnel_url_counts() {
    assert_eq!(
        parse_tunnel_url("x https://a.trycloudflare.com\tmore"),
        Some("https://a.trycloudflare.com".to_string())
    );
    assert_eq!(
        parse_tunnel_url("\x1b[32mhttps://d.trycloudflare.com\x1b[0m |"),
        Some("https://d.trycloudflare.com".to_string())
    );
    assert_eq!(
        parse_tunnel_url("see https://developers.cloudflare.com or https://a-b.trycloudflare.com"),
        Some("https://a-b.trycloudflare.com".to_string())
    );
    assert_eq!(
        parse_tunnel_url("https://e.trycloudflare.com https://f.trycloudflare.com"),
        Some("https://e.trycloudflare.com".to_string())
    );
    assert_eq!(
        parse_tunnel_url("https://c.trycloudflare.com"),
        Some("https://c.trycloudflare.com".to_string())
    );
}

#[test]
fn standard_args_point_at_the_local_port() {
    assert_eq!(tunnel_args(&vec![], 12345), vec!["tunnel", "--url", "http://127.0.0.1:12345"]);
    assert_eq!(tunnel_args(&vec!["fake.sh".to_string()], 1), vec!["fake.sh"]);
}

#[test]
fn scan_gives_up_after_both_streams_close() {
    let s = scan_start();
    let ScanAction::Continue(s) = scan_step(s, ScanEvent::Line("starting".into())) else { panic!() };
    let ScanAction::Continue(s) = scan_step(s, ScanEvent::Closed(Stream::Stdout)) else { panic!() };
    assert!(s.out_done && !s.err_done);
    assert!(matches!(scan_step(s, ScanEvent::Closed(Stream::Stderr)), ScanAction::GiveUp));
    assert!(matches!(scan_step(s, ScanEvent::Deadline), ScanAction::GiveUp));
    assert!(matches!(scan_step(s, ScanEvent::Failed), ScanAction::GiveUp));
    match scan_step(s, ScanEvent::Line("| https://f.trycloudflare.com |".into())) {
        ScanAction::Found(u) => assert_eq!(u, "https://f.trycloudflare.com"),
        other => panic!("unexpected {other:?}"),
    }
}

#[test]
fn exited_tunnel_is_reaped_and_reads_as_not_running() {
    assert_eq!(check_tunnel(ChildStatus::Alive), TunnelCheck::Running);
    assert_eq!(check_tunnel(ChildStatus::Absent), TunnelCheck::NotRunning);
    assert_eq!(check_tunnel(ChildStatus::Exited), TunnelCheck::Reap);
}
