//! The replies of the share server: the landing page of a share, its inline
//! view and its download, decided from the share a token names.

use vstd::prelude::*;
use crate::password::argon2_accepts;
use crate::password::verify_password;
use crate::server::content_type_of;
use crate::server::content_type_for;
use crate::server::escape_html;
use crate::server::html_escape;
use crate::server::human_size;
use crate::server::human_size_text;
use crate::server::is_image;
use crate::server::is_image_name;
use crate::server::kind_label;
use crate::server::kind_label_of;
use crate::server::sanitize_filename;
use crate::server::sanitized;
use crate::share::Share;
use crate::share::ShareRegistry;
use crate::text::string_opt;

verus! {

/// The download control of a landing page: a POST form with a password field
/// for a protected share, a plain GET link otherwise.
pub open spec fn widget_html(token: Seq<char>, needs_pw: bool) -> Seq<char> {
    if needs_pw {
        "<form method=\"post\" action=\"/d/"@ + escape_html(token)
            + "/download\">\n<input type=\"password\" name=\"password\" placeholder=\"Password\" required /><br/>\n<button type=\"submit\">Download</button></form>"@
    } else {
        "<a href=\"/d/"@ + escape_html(token) + "/download\"><button>Download</button></a>"@
    }
}

/// The subtitle of a landing page: file kind and size, e.g. `PDF document · 2.0 B`.
pub open spec fn subtitle_of(name: Seq<char>, size: u64) -> Seq<char> {
    kind_label_of(name) + " \u{b7} "@ + human_size_text(size as nat)
}

/// Whether the landing page previews the file itself as its Open Graph
/// image: only for an unprotected image share.
pub open spec fn previews_image(name: Seq<char>, needs_pw: bool) -> bool {
    !needs_pw && is_image_name(name)
}

/// The fixed Open Graph tags of a landing page: site, type, title and
/// description.
pub open spec fn og_head(name: Seq<char>, size: u64) -> Seq<char> {
    "<meta property=\"og:site_name\" content=\"Tunneldrop\">\n<meta property=\"og:type\" content=\"website\">\n<meta property=\"og:title\" content=\""@
        + escape_html(name) + "\">\n<meta property=\"og:description\" content=\""@
        + escape_html(subtitle_of(name, size) + " \u{2014} download via Tunneldrop"@) + "\">"@
}

/// The `og:url` tag of a landing page, when the request's base URL is known.
pub open spec fn og_url(token: Seq<char>, base: Option<Seq<char>>) -> Seq<char> {
    match base {
        Some(b) => "\n<meta property=\"og:url\" content=\""@ + escape_html(b) + "/d/"@
            + escape_html(token) + "\">"@,
        None => Seq::empty(),
    }
}

/// The `og:image` tags of a landing page: present only when the file itself
/// is the preview and the base URL is known.
pub open spec fn og_image(
    token: Seq<char>,
    name: Seq<char>,
    needs_pw: bool,
    base: Option<Seq<char>>,
) -> Seq<char> {
    if previews_image(name, needs_pw) {
        match base {
            Some(b) => "\n<meta property=\"og:image\" content=\""@ + escape_html(b) + "/d/"@
                + escape_html(token) + "/raw\">\n<meta property=\"og:image:alt\" content=\""@
                + escape_html(name) + "\">"@,
            None => Seq::empty(),
        }
    } else {
        Seq::empty()
    }
}

/// The Twitter card kind of a landing page.
pub open spec fn og_card(name: Seq<char>, needs_pw: bool) -> Seq<char> {
    if previews_image(name, needs_pw) {
        "summary_large_image"@
    } else {
        "summary"@
    }
}

/// The Open Graph and Twitter card tags of a landing page.
pub open spec fn og_html(
    token: Seq<char>,
    name: Seq<char>,
    size: u64,
    needs_pw: bool,
    base: Option<Seq<char>>,
) -> Seq<char> {
    og_head(name, size) + og_url(token, base) + og_image(token, name, needs_pw, base)
        + "\n<meta name=\"twitter:card\" content=\""@ + og_card(name, needs_pw) + "\">"@
}

/// The landing page of a share: its (escaped) name, kind and size, preview
/// tags, and the download control.
pub open spec fn landing_html_of(
    token: Seq<char>,
    name: Seq<char>,
    size: u64,
    needs_pw: bool,
    base: Option<Seq<char>>,
) -> Seq<char> {
    let lock = if needs_pw {
        "\u{1f512} "@
    } else {
        Seq::empty()
    };
    "<!doctype html><html lang=\"en\"><head><meta charset=\"utf-8\">\n<meta name=\"viewport\" content=\"width=device-width, initial-scale=1\">\n<title>"@
        + escape_html(name) + "</title>\n"@ + og_html(token, name, size, needs_pw, base)
        + "\n<style>body{font-family:system-ui;max-width:32rem;margin:4rem auto;text-align:center;padding:0 1rem}\nh1{font-size:1.4rem;word-break:break-all}\n.sub{color:#666;margin:.2rem 0 1.5rem}\nbutton{padding:.6rem 1.2rem;font-size:1rem;cursor:pointer;border:0;border-radius:.4rem;background:#1c54d6;color:#fff}\na{text-decoration:none}\ninput{padding:.5rem;margin:.5rem;font-size:1rem}</style></head>\n<body><h1>"@
        + lock + escape_html(name) + "</h1><p class=\"sub\">"@ + escape_html(subtitle_of(name, size))
        + "</p>\n"@ + widget_html(token, needs_pw) + "</body></html>"@
}

/// Builds `widget_html`.
fn widget(token: &str, needs_pw: bool) -> (r: String)
    ensures
        r@ == widget_html(token@, needs_pw),
{
    let t = html_escape(token);
    let mut out = String::new();
    if needs_pw {
        out.append("<form method=\"post\" action=\"/d/");
        out.append(t.as_str());
        out.append("/download\">\n<input type=\"password\" name=\"password\" placeholder=\"Password\" required /><br/>\n<button type=\"submit\">Download</button></form>");
    } else {
        out.append("<a href=\"/d/");
        out.append(t.as_str());
        out.append("/download\"><button>Download</button></a>");
    }
    out
}

/// Builds `subtitle_of`.
fn subtitle(name: &str, size: u64) -> (r: String)
    ensures
        r@ == subtitle_of(name@, size),
{
    let mut out = String::new();
    out.append(kind_label(name));
    out.append(" \u{b7} ");
    let h = human_size(size);
    out.append(h.as_str());
    assert(out@ =~= subtitle_of(name@, size));
    out
}

/// Builds `og_html`.
fn og(token: &str, name: &str, size: u64, needs_pw: bool, base: &Option<String>) -> (r: String)
    ensures
        r@ == og_html(token@, name@, size, needs_pw, string_opt(*base)),
{
    let n = html_escape(name);
    let t = html_escape(token);
    let mut desc = subtitle(name, size);
    desc.append(" \u{2014} download via Tunneldrop");
    let d = html_escape(desc.as_str());
    let mut out = String::new();
    out.append("<meta property=\"og:site_name\" content=\"Tunneldrop\">\n<meta property=\"og:type\" content=\"website\">\n<meta property=\"og:title\" content=\"");
    out.append(n.as_str());
    out.append("\">\n<meta property=\"og:description\" content=\"");
    out.append(d.as_str());
    out.append("\">");
    let ghost head = out@;
    match base {
        Some(b) => {
            let be = html_escape(b.as_str());
            out.append("\n<meta property=\"og:url\" content=\"");
            out.append(be.as_str());
            out.append("/d/");
            out.append(t.as_str());
            out.append("\">");
        },
        None => {},
    }
    let ghost with_url = out@;
    let preview = !needs_pw && is_image(name);
    if preview {
        match base {
            Some(b) => {
                let be = html_escape(b.as_str());
                out.append("\n<meta property=\"og:image\" content=\"");
                out.append(be.as_str());
                out.append("/d/");
                out.append(t.as_str());
                out.append("/raw\">\n<meta property=\"og:image:alt\" content=\"");
                out.append(n.as_str());
                out.append("\">");
            },
            None => {},
        }
    }
    let ghost with_image = out@;
    let card = if preview {
        "summary_large_image"
    } else {
        "summary"
    };
    out.append("\n<meta name=\"twitter:card\" content=\"");
    out.append(card);
    out.append("\">");
    assert(out@ =~= og_html(token@, name@, size, needs_pw, string_opt(*base)));
    out
}

/// The landing page of a share, as `landing_html_of` describes it.
pub fn landing_html(token: &str, share: &Share, base: &Option<String>) -> (r: String)
    ensures
        r@ == landing_html_of(
            token@,
            share.name@,
            share.size,
            share.password_hash is Some,
            string_opt(*base),
        ),
{
    let needs_pw = share.password_hash.is_some();
    let name = share.name.as_str();
    let n = html_escape(name);
    let o = og(token, name, share.size, needs_pw, base);
    let sub = subtitle(name, share.size);
    let s = html_escape(sub.as_str());
    let w = widget(token, needs_pw);
    let mut out = String::new();
    out.append("<!doctype html><html lang=\"en\"><head><meta charset=\"utf-8\">\n<meta name=\"viewport\" content=\"width=device-width, initial-scale=1\">\n<title>");
    out.append(n.as_str());
    out.append("</title>\n");
    out.append(o.as_str());
    out.append("\n<style>body{font-family:system-ui;max-width:32rem;margin:4rem auto;text-align:center;padding:0 1rem}\nh1{font-size:1.4rem;word-break:break-all}\n.sub{color:#666;margin:.2rem 0 1.5rem}\nbutton{padding:.6rem 1.2rem;font-size:1rem;cursor:pointer;border:0;border-radius:.4rem;background:#1c54d6;color:#fff}\na{text-decoration:none}\ninput{padding:.5rem;margin:.5rem;font-size:1rem}</style></head>\n<body><h1>");
    if needs_pw {
        out.append("\u{1f512} ");
    }
    out.append(n.as_str());
    out.append("</h1><p class=\"sub\">");
    out.append(s.as_str());
    out.append("</p>\n");
    out.append(w.as_str());
    out.append("</body></html>");
    assert(out@ =~= landing_html_of(
        token@,
        share.name@,
        share.size,
        needs_pw,
        string_opt(*base),
    ));
    out
}


/// A file to stream back, if it can still be opened, with its headers.
#[derive(Debug)]
pub struct FileReply {
    /// The `Content-Type` header.
    pub content_type: &'static str,
    /// The `Content-Length` header: the share's recorded size.
    pub content_length: u64,
    /// The `Content-Disposition` header.
    pub disposition: String,
}

/// What the server answers a request for a share link.
#[derive(Debug)]
pub enum Reply {
    /// 200, an HTML page.
    Page(String),
    /// 404, a plain-text message.
    NotFound(&'static str),
    /// 401, a plain-text message.
    Unauthorized(&'static str),
    /// 303, a redirect to the given location.
    SeeOther(String),
    /// 200 with the file's bytes; 410 if the file can no longer be opened.
    Serve(FileReply),
}

impl Reply {
    /// The HTTP status of the reply (a `Serve` reply whose file opens).
    pub fn status(&self) -> (r: u16)
        ensures
            r == match self {
                Reply::Page(_) => 200u16,
                Reply::NotFound(_) => 404u16,
                Reply::Unauthorized(_) => 401u16,
                Reply::SeeOther(_) => 303u16,
                Reply::Serve(_) => 200u16,
            },
    {
        match self {
            Reply::Page(_) => 200,
            Reply::NotFound(_) => 404,
            Reply::Unauthorized(_) => 401,
            Reply::SeeOther(_) => 303,
            Reply::Serve(_) => 200,
        }
    }
}

/// The `Content-Disposition` value for a file name: `inline` or `attachment`,
/// then the sanitized name quoted.
pub open spec fn disposition_of(inline: bool, name: Seq<char>) -> Seq<char> {
    (if inline {
        "inline"@
    } else {
        "attachment"@
    }) + "; filename=\""@ + sanitized(name) + "\""@
}

/// Builds `disposition_of`.
fn disposition(inline: bool, name: &str) -> (r: String)
    ensures
        r@ == disposition_of(inline, name@),
{
    let mut out = String::new();
    if inline {
        out.append("inline");
    } else {
        out.append("attachment");
    }
    out.append("; filename=\"");
    let clean = sanitize_filename(name);
    out.append(clean.as_str());
    out.append("\"");
    assert(out@ =~= disposition_of(inline, name@));
    out
}

/// The answer to `GET /d/{token}`: the share's landing page, or 404 when no
/// share is held under the token. `base` is the request's public base URL.
pub fn landing_page(token: &str, share: Option<&Share>, base: &Option<String>) -> (r: Reply)
    ensures
        match share {
            None => r == Reply::NotFound("Link not found or revoked."),
            Some(s) => r matches Reply::Page(html) && html@ == landing_html_of(
                token@,
                s.name@,
                s.size,
                s.password_hash is Some,
                string_opt(*base),
            ),
        },
{
    match share {
        None => Reply::NotFound("Link not found or revoked."),
        Some(s) => Reply::Page(landing_html(token, s, base)),
    }
}

/// Whether `r` answers a request for the inline view of `share`.
pub open spec fn raw_reply_of(share: Option<&Share>, r: Reply) -> bool {
    match share {
        None => r == Reply::NotFound("Link not found or revoked."),
        Some(s) => if s.password_hash is Some {
            r == Reply::NotFound("Not available.")
        } else {
            r matches Reply::Serve(f) && f.content_type@ == content_type_of(s.name@)
                && f.content_length == s.size && f.disposition@ == disposition_of(true, s.name@)
        },
    }
}

/// The answer to `GET /d/{token}/raw`: the file inline with its real content
/// type, for link previews and in-browser viewing. Password-protected shares
/// are refused, so protected content is never exposed without the password.
pub fn raw(share: Option<&Share>) -> (r: Reply)
    ensures
        raw_reply_of(share, r),
{
    match share {
        None => Reply::NotFound("Link not found or revoked."),
        Some(s) => {
            if s.password_hash.is_some() {
                Reply::NotFound("Not available.")
            } else {
                Reply::Serve(
                    FileReply {
                        content_type: content_type_for(s.name.as_str()),
                        content_length: s.size,
                        disposition: disposition(true, s.name.as_str()),
                    },
                )
            }
        },
    }
}

/// The password a download request carries: the form field, or the empty
/// string when there is no form or no field.
pub open spec fn provided_of(provided: Option<String>) -> Seq<char> {
    match provided {
        Some(p) => p@,
        None => Seq::empty(),
    }
}

/// Whether `r` answers a download request for `token` carrying the password
/// `provided` (empty when none), when `share` is held under the token.
pub open spec fn download_reply_of(
    token: Seq<char>,
    share: Option<&Share>,
    provided: Seq<char>,
    r: Reply,
) -> bool {
    match share {
        None => r == Reply::NotFound("Link not found or revoked."),
        Some(s) => match s.password_hash {
            Some(h) if provided.len() == 0 => r matches Reply::SeeOther(loc) && loc@ == "/d/"@
                + token,
            Some(h) if !argon2_accepts(provided, h@) => r == Reply::Unauthorized(
                "Incorrect password.",
            ),
            _ => r matches Reply::Serve(f) && f.content_type@ == "application/octet-stream"@
                && f.content_length == s.size && f.disposition@ == disposition_of(false, s.name@),
        },
    }
}

/// The answer to `GET` or `POST /d/{token}/download`, where `provided` is the
/// form's password field. A protected share asked for without a password is
/// sent back to its landing page; with a wrong one it is refused with 401;
/// otherwise the file is served as an attachment.
pub fn download(token: &str, share: Option<&Share>, provided: Option<String>) -> (r: Reply)
    ensures
        download_reply_of(token@, share, provided_of(provided), r),
{
    match share {
        None => Reply::NotFound("Link not found or revoked."),
        Some(s) => {
            match &s.password_hash {
                Some(h) => {
                    let p = match provided {
                        Some(p) => p,
                        None => String::new(),
                    };
                    if p.as_str().is_empty() {
                        let mut loc = String::new();
                        loc.append("/d/");
                        loc.append(token);
                        return Reply::SeeOther(loc);
                    }
                    if !verify_password(p.as_str(), h.as_str()) {
                        return Reply::Unauthorized("Incorrect password.");
                    }
                },
                None => {},
            }
            Reply::Serve(
                FileReply {
                    content_type: "application/octet-stream",
                    content_length: s.size,
                    disposition: disposition(false, s.name.as_str()),
                },
            )
        },
    }
}

/// Counts one more download of the share held under `token`, as a download
/// does once its file has been opened; nothing happens when no share is held
/// there.
pub fn count_download(registry: &mut ShareRegistry, token: &str)
    requires
        old(registry).wf(),
        old(registry)@.contains_key(token@) ==> old(registry)@[token@].download_count < u64::MAX,
    ensures
        final(registry).wf(),
        old(registry)@.contains_key(token@) ==> final(registry)@ == old(registry)@.insert(
            token@,
            (Share { download_count: (old(registry)@[token@].download_count + 1) as u64, ..old(registry)@[token@] }),
        ),
        !old(registry)@.contains_key(token@) ==> final(registry)@ == old(registry)@,
{
    match registry.get_mut(token) {
        Some(s) => {
            s.download_count = s.download_count + 1;
        },
        None => {},
    }
}

} // verus!
