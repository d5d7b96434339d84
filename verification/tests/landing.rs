use local_remote_share::reply::{landing_page, Reply};
use local_remote_share::server::{html_escape, human_size, is_image, kind_label};
use local_remote_share::share::Share;
use std::path::PathBuf;

/// The landing page written out with `format!`, piece by piece.
fn expected_page(token: &str, name_raw: &str, size: u64, needs_pw: bool, base: Option<&str>) -> String {
    let download_widget = if needs_pw {
        format!(
            r#"<form method="post" action="/d/{token}/download">
<input type="password" name="password" placeholder="Password" required /><br/>
<button type="submit">Download</button></form>"#,
            token = html_escape(token)
        )
    } else {
        format!(
            r#"<a href="/d/{token}/download"><button>Download</button></a>"#,
            token = html_escape(token)
        )
    };
    let name = html_escape(name_raw);
    let size = human_size(size);
    let kind = kind_label(name_raw);
    let subtitle = format!("{kind} \u{b7} {size}");
    let mut og = format!(
        r#"<meta property="og:site_name" content="Tunneldrop">
<meta property="og:type" content="website">
<meta property="og:title" content="{name}">
<meta property="og:description" content="{desc}">"#,
        name = name,
        desc = html_escape(&format!("{subtitle} \u{2014} download via Tunneldrop")),
    );
    if let Some(base) = base {
        og.push_str(&format!(
            "\n<meta property=\"og:url\" content=\"{}/d/{}\">",
            html_escape(base),
            html_escape(token)
        ));
    }
    let card = if !needs_pw && is_image(name_raw) {
        if let Some(base) = base {
            og.push_str(&format!(
                "\n<meta property=\"og:image\" content=\"{base}/d/{token}/raw\">\
                 \n<meta property=\"og:image:alt\" content=\"{name}\">",
                base = html_escape(base),
                token = html_escape(token),
                name = name,
            ));
        }
        "summary_large_image"
    } else {
        "summary"
    };
    og.push_str(&format!("\n<meta name=\"twitter:card\" content=\"{card}\">"));
    let lock = if needs_pw { "\u{1f512} " } else { "" };
    format!(
        r#"<!doctype html><html lang="en"><head><meta charset="utf-8">
<meta name="viewport" content="width=device-width, initial-scale=1">
<title>{name}</title>
{og}
<style>body{{font-family:system-ui;max-width:32rem;margin:4rem auto;text-align:center;padding:0 1rem}}
h1{{font-size:1.4rem;word-break:break-all}}
.sub{{color:#666;margin:.2rem 0 1.5rem}}
button{{padding:.6rem 1.2rem;font-size:1rem;cursor:pointer;border:0;border-radius:.4rem;background:#1c54d6;color:#fff}}
a{{text-decoration:none}}
input{{padding:.5rem;margin:.5rem;font-size:1rem}}</style></head>
<body><h1>{lock}{name}</h1><p class="sub">{subtitle}</p>
{download_widget}</body></html>"#,
        name = name,
        og = og,
        subtitle = html_escape(&subtitle),
        lock = lock,
        download_widget = download_widget,
    )
}

fn page(token: &str, name: &str, size: u64, hash: Option<&str>, base: Option<&str>) -> String {
    let share = Share::new(token.to_string(), PathBuf::from("/tmp/f"), name.to_string(), size, hash.map(String::from));
    match landing_page(token, Some(&share), &base.map(String::from)) {
        Reply::Page(html) => html,
        other => panic!("unexpected {other:?}"),
    }
}

#[test]
fn landing_page_is_the_full_template() {
    let cases: [(&str, &str, u64, Option<&str>, Option<&str>); 6] = [
        ("tok1", "report.pdf", 5, None, None),
        ("imgtok", "photo.png", 3, None, Some("https://x.trycloudflare.com")),
        ("ptok", "secret.png", 3, Some("h"), Some("https://x.trycloudflare.com")),
        ("t<\"x", "<b>'a'&\"z\".jpg", 123456789, None, Some("http://h\"x")),
        ("tok7", "f.txt", 2, None, None),
        ("tok8", "g.txt", 2, Some("h"), None),
    ];
    for (token, name, size, hash, base) in cases {
        assert_eq!(page(token, name, size, hash, base), expected_page(token, name, size, hash.is_some(), base));
    }
}
