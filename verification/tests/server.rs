use local_remote_share::reply::{download, landing_page, raw, Reply};
use local_remote_share::server::{
    base_url, content_type_for, html_escape, human_size, is_image, kind_label, sanitize_filename,
};
use local_remote_share::share::Share;
use std::path::PathBuf;

#[test]
fn html_escape_neutralizes_markup() {
    assert_eq!(
        html_escape("<script>alert('x')&\"</script>"),
        "&lt;script&gt;alert(&#x27;x&#x27;)&amp;&quot;&lt;/script&gt;"
    );
}

#[test]
fn sanitize_filename_strips_quotes_and_controls() {
    assert_eq!(sanitize_filename("ev\"il\r\n.txt"), "ev_il.txt");
}

#[test]
fn sanitize_filename_drops_c1_controls_and_keeps_other_text() {
    assert_eq!(sanitize_filename("a\u{85}b\u{9f}c\u{a0}d\u{7f}"), "abc\u{a0}d");
    assert_eq!(sanitize_filename("résumé \"v2\".pdf"), "résumé _v2_.pdf");
}

#[test]
fn content_types_follow_the_extension() {
    assert_eq!(content_type_for("photo.PNG"), "image/png");
    assert_eq!(content_type_for("a.b.jpeg"), "image/jpeg");
    assert_eq!(content_type_for("clip.mov"), "video/quicktime");
    assert_eq!(content_type_for("notes.txt"), "text/plain; charset=utf-8");
    assert_eq!(content_type_for("icon.ico"), "image/x-icon");
    assert_eq!(content_type_for("archive.tar.gz"), "application/octet-stream");
    assert_eq!(content_type_for("png"), "image/png");
    assert_eq!(content_type_for("file."), "application/octet-stream");
}

#[test]
fn only_raster_images_are_previewable() {
    assert!(is_image("a.png"));
    assert!(is_image("a.JPG"));
    assert!(is_image("a.webp"));
    assert!(is_image("a.bmp"));
    assert!(is_image("a.gif"));
    assert!(!is_image("a.svg"));
    assert!(!is_image("a.ico"));
    assert!(!is_image("a.pdf"));
}

#[test]
fn kind_labels_follow_the_extension() {
    assert_eq!(kind_label("report.pdf"), "PDF document");
    assert_eq!(kind_label("x.7z"), "Archive");
    assert_eq!(kind_label("x.PPTX"), "Presentation");
    assert_eq!(kind_label("x.md"), "Text document");
    assert_eq!(kind_label("noext"), "File");
}

#[test]
fn base_url_defaults_to_https() {
    assert_eq!(base_url(Some("x.trycloudflare.com"), None), Some("https://x.trycloudflare.com".to_string()));
    assert_eq!(base_url(Some("h:1"), Some("http")), Some("http://h:1".to_string()));
    assert_eq!(base_url(None, Some("http")), None);
}

#[test]
fn human_size_matches_float_formatting() {
    let cases: [u64; 16] = [
        0, 1, 1023, 1024, 1280, 1536, 1587, 10 * 1024 * 1024, 1048524, 1048575,
        5 * 1024 * 1024 * 1024, (1u64 << 53) + 1, (1u64 << 53) + 3, u64::MAX, 1_000_000_000_000, 3 * 1024 + 256,
    ];
    for b in cases {
        const UNITS: [&str; 4] = ["B", "KB", "MB", "GB"];
        let mut size = b as f64;
        let mut unit = 0;
        while size >= 1024.0 && unit < UNITS.len() - 1 {
            size /= 1024.0;
            unit += 1;
        }
        let expected = format!("{size:.1} {}", UNITS[unit]);
        assert_eq!(human_size(b), expected, "bytes = {b}");
    }
}

#[test]
fn human_size_examples() {
    assert_eq!(human_size(5), "5.0 B");
    assert_eq!(human_size(1536), "1.5 KB");
    assert_eq!(human_size(1280), "1.2 KB");
    assert_eq!(human_size(u64::MAX), "17179869184.0 GB");
}

fn sample(name: &str, password_hash: Option<String>) -> Share {
    Share::new("tok".to_string(), PathBuf::from("/tmp/x"), name.to_string(), 5, password_hash)
}

#[test]
fn landing_page_shows_escaped_name_and_get_link() {
    let share = sample("<script>alert(1)</script>.txt", None);
    let r = landing_page("tokx", Some(&share), &None);
    assert_eq!(r.status(), 200);
    let Reply::Page(html) = r else { panic!("expected a page") };
    assert!(!html.contains("<script>alert(1)"));
    assert!(html.contains("&lt;script&gt;"));
    assert!(html.contains(r#"href="/d/tokx/download""#));
    assert!(!html.contains(r#"method="post""#));
    assert!(html.contains("Text document \u{b7} 5.0 B"));
}

#[test]
fn landing_page_for_unknown_token_is_404() {
    let r = landing_page("nope", None, &None);
    assert_eq!(r.status(), 404);
    assert!(matches!(r, Reply::NotFound("Link not found or revoked.")));
}

#[test]
fn landing_page_og_tags() {
    let base = Some("https://x.trycloudflare.com".to_string());
    let pdf = sample("report.pdf", None);
    let Reply::Page(html) = landing_page("ogtok", Some(&pdf), &base) else { panic!() };
    assert!(html.contains(r#"property="og:title" content="report.pdf""#));
    assert!(html.contains("PDF document"));
    assert!(!html.contains("og:image"));
    assert!(html.contains(r#"content="https://x.trycloudflare.com/d/ogtok""#));

    let png = sample("photo.png", None);
    let Reply::Page(html) = landing_page("imgtok", Some(&png), &base) else { panic!() };
    assert!(html.contains(r#"content="https://x.trycloudflare.com/d/imgtok/raw""#));
    assert!(html.contains(r#"content="summary_large_image""#));

    let locked = sample("secret.png", Some("h".to_string()));
    let Reply::Page(html) = landing_page("ptok", Some(&locked), &base) else { panic!() };
    assert!(!html.contains("og:image"));
    assert!(html.contains(r#"method="post""#));
    assert!(html.contains(r#"type="password""#));
    assert!(html.contains("\u{1f512} secret.png"));
}

#[test]
fn raw_serves_unprotected_share_inline() {
    let share = sample("p.png", None);
    match raw(Some(&share)) {
        Reply::Serve(f) => {
            assert_eq!(f.content_type, "image/png");
            assert_eq!(f.content_length, 5);
            assert_eq!(f.disposition, "inline; filename=\"p.png\"");
        }
        other => panic!("unexpected {other:?}"),
    }
    let locked = sample("s.png", Some("h".to_string()));
    assert!(matches!(raw(Some(&locked)), Reply::NotFound("Not available.")));
    assert_eq!(raw(None).status(), 404);
}

#[test]
fn download_checks_the_password() {
    let hash = local_remote_share::password::hash_password("letmein");
    let locked = sample("s.txt", Some(hash));
    assert!(matches!(download("tok3", Some(&locked), Some("wrong".into())), Reply::Unauthorized(_)));
    assert_eq!(download("tok3", Some(&locked), Some("wrong".into())).status(), 401);
    match download("tok6", Some(&locked), None) {
        Reply::SeeOther(loc) => assert_eq!(loc, "/d/tok6"),
        other => panic!("unexpected {other:?}"),
    }
    assert_eq!(download("tok6", Some(&locked), Some(String::new())).status(), 303);
    match download("tok4", Some(&locked), Some("letmein".into())) {
        Reply::Serve(f) => {
            assert_eq!(f.content_type, "application/octet-stream");
            assert_eq!(f.disposition, "attachment; filename=\"s.txt\"");
        }
        other => panic!("unexpected {other:?}"),
    }
    let open = sample("b.txt", None);
    assert_eq!(download("tok5", Some(&open), None).status(), 200);
    assert_eq!(download("nope", None, None).status(), 404);
}

#[test]
fn escaping_is_undone_by_decoding() {
    let s = "a&b<c>d\"e'f &amp; &#x27;";
    let e = html_escape(s);
    let decoded = e
        .replace("&lt;", "<")
        .replace("&gt;", ">")
        .replace("&quot;", "\"")
        .replace("&#x27;", "'")
        .replace("&amp;", "&");
    assert_eq!(decoded, s);
    assert_ne!(html_escape("&lt;"), html_escape("<"));
}
