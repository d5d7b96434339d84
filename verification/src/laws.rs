//! Properties of the library that span several of its functions or hold of
//! every input, stated over the views and spec functions that the functions'
//! contracts use.

use vstd::prelude::*;
use crate::reply::download_reply_of;
use crate::reply::og_card;
use crate::reply::og_image;
use crate::reply::raw_reply_of;
use crate::reply::Reply;
use crate::password::argon2_accepts;
use crate::server::escape_char;
use crate::server::escape_html;
use crate::server::is_control;
use crate::server::sanitized;
use crate::share::Share;
use crate::share::ShareRegistry;
use crate::server::as_double;
use crate::server::extension;
use crate::server::is_image_name;
use crate::server::human_size_text;
use crate::text::contains_seq;
use crate::text::decimal;
use crate::text::occurs_at;
use crate::tunnel::ends_url;
use crate::tunnel::is_tunnel_url_at;
use crate::tunnel::tunnel_url_from;
use crate::tunnel::tunnel_url_of;
use crate::tunnel::url_at;
use crate::tunnel::url_len;

verus! {

/// After a share is inserted, looking up its token finds it, and every other
/// token finds what it found before.
pub proof fn insert_then_get(registry: ShareRegistry, share: Share, token: Seq<char>)
    requires
        registry.wf(),
    ensures
        ({
            let after = registry@.insert(share.token@, share);
            &&& after.contains_key(share.token@)
            &&& after[share.token@] == share
            &&& token != share.token@ ==> (after.contains_key(token) == registry@.contains_key(token))
            &&& token != share.token@ && registry@.contains_key(token) ==> after[token]
                == registry@[token]
        }),
{
}

/// After a token is removed, looking it up finds nothing, and every other
/// token finds what it found before.
pub proof fn remove_then_get(registry: ShareRegistry, removed: Seq<char>, token: Seq<char>)
    requires
        registry.wf(),
    ensures
        ({
            let after = registry@.remove(removed);
            &&& !after.contains_key(removed)
            &&& token != removed ==> (after.contains_key(token) == registry@.contains_key(token))
            &&& token != removed && registry@.contains_key(token) ==> after[token]
                == registry@[token]
        }),
{
}

/// Rolling back a share that was registered under a fresh token (removing
/// its token again) leaves the registry as it was before.
pub proof fn roll_back_restores_registry(registry: ShareRegistry, share: Share)
    requires
        registry.wf(),
        !registry@.contains_key(share.token@),
    ensures
        registry@.insert(share.token@, share).remove(share.token@) == registry@,
{
    assert(registry@.insert(share.token@, share).remove(share.token@) =~= registry@);
}

/// Inserting a share under a token not yet held adds one to the count;
/// under a held token the count stays; removing a held token takes one off.
pub proof fn count_after_insert_and_remove(registry: ShareRegistry, share: Share, token: Seq<char>)
    requires
        registry.wf(),
    ensures
        registry@.insert(share.token@, share).len() == registry@.len() + if registry@.contains_key(
            share.token@,
        ) {
            0int
        } else {
            1int
        },
        registry@.contains_key(token) ==> registry@.remove(token).len() == registry@.len() - 1,
        !registry@.contains_key(token) ==> registry@.remove(token).len() == registry@.len(),
{
    registry.lemma_finite();
}

/// A download is only ever served for a protected share when the request
/// carried a non-empty password that argon2 accepts for its hash.
pub proof fn protected_download_needs_password(
    token: Seq<char>,
    share: &Share,
    provided: Seq<char>,
    r: Reply,
)
    requires
        share.password_hash is Some,
        download_reply_of(token, Some(share), provided, r),
        r is Serve,
    ensures
        provided.len() > 0,
        argon2_accepts(provided, share.password_hash->0@),
{
}

/// The inline view never serves a protected share.
pub proof fn protected_share_has_no_inline_view(share: &Share, r: Reply)
    requires
        raw_reply_of(Some(share), r),
        r is Serve,
    ensures
        share.password_hash is None,
{
}

/// The landing page of a protected share carries no preview image (it would
/// leak the content) and a plain summary card.
pub proof fn protected_landing_page_has_no_preview(
    token: Seq<char>,
    name: Seq<char>,
    base: Option<Seq<char>>,
)
    ensures
        og_image(token, name, true, base) == Seq::<char>::empty(),
        og_card(name, true) == "summary"@,
{
}

/// Escaped text holds no `<`, `>`, `"` or `'`: it cannot open a tag or
/// leave an attribute value.
pub proof fn escaped_text_is_inert(s: Seq<char>)
    ensures
        forall|i: int|
            0 <= i < escape_html(s).len() ==> {
                let c = #[trigger] escape_html(s)[i];
                c != '<' && c != '>' && c != '"' && c != '\''
            },
    decreases s.len(),
{
    if s.len() > 0 {
        escaped_text_is_inert(s.drop_last());
        let prev = escape_html(s.drop_last());
        let last = escape_char(s.last());
        reveal_strlit("&amp;");
        reveal_strlit("&lt;");
        reveal_strlit("&gt;");
        reveal_strlit("&quot;");
        reveal_strlit("&#x27;");
        assert forall|i: int| 0 <= i < escape_html(s).len() implies {
            let c = #[trigger] escape_html(s)[i];
            c != '<' && c != '>' && c != '"' && c != '\''
        } by {
            if i < prev.len() {
                assert(escape_html(s)[i] == prev[i]);
            } else {
                assert(escape_html(s)[i] == last[i - prev.len()]);
            }
        }
    }
}

/// Text without `&`, `<`, `>`, `"` and `'` is left as it is by escaping.
pub proof fn plain_text_escapes_to_itself(s: Seq<char>)
    requires
        forall|i: int|
            0 <= i < s.len() ==> {
                let c = #[trigger] s[i];
                c != '&' && c != '<' && c != '>' && c != '"' && c != '\''
            },
    ensures
        escape_html(s) == s,
    decreases s.len(),
{
    if s.len() > 0 {
        assert(s.last() == s[s.len() - 1]);
        plain_text_escapes_to_itself(s.drop_last());
        assert(s.drop_last().push(s.last()) =~= s);
        assert(seq![s.last()] + Seq::<char>::empty() =~= seq![s.last()]);
        assert(s.drop_last() + seq![s.last()] =~= s);
    }
}

/// A sanitized file name holds no `"` and no control character, so it cannot
/// end the quoted header parameter or split the response.
pub proof fn sanitized_name_is_header_safe(s: Seq<char>)
    ensures
        forall|i: int|
            0 <= i < sanitized(s).len() ==> {
                let c = #[trigger] sanitized(s)[i];
                c != '"' && !is_control(c)
            },
    decreases s.len(),
{
    if s.len() > 0 {
        sanitized_name_is_header_safe(s.drop_last());
        let prev = sanitized(s.drop_last());
        assert forall|i: int| 0 <= i < sanitized(s).len() implies {
            let c = #[trigger] sanitized(s)[i];
            c != '"' && !is_control(c)
        } by {
            if i < prev.len() {
                assert(sanitized(s)[i] == prev[i]);
            }
        }
    }
}

/// A name without `"` and control characters is kept as it is.
pub proof fn safe_name_is_kept(s: Seq<char>)
    requires
        forall|i: int| 0 <= i < s.len() ==> #[trigger] s[i] != '"' && !is_control(s[i]),
    ensures
        sanitized(s) == s,
    decreases s.len(),
{
    if s.len() > 0 {
        assert(s.last() == s[s.len() - 1]);
        safe_name_is_kept(s.drop_last());
        assert(s.drop_last().push(s.last()) =~= s);
    }
}

/// A prefix of length `k` holding no URL-ending character makes the URL at
/// least `k` long.
proof fn url_len_at_least(s: Seq<char>, k: nat)
    requires
        k <= s.len(),
        forall|i: int| 0 <= i < k ==> !ends_url(#[trigger] s[i]),
    ensures
        url_len(s) >= k,
    decreases k,
{
    if k > 0 {
        assert(!ends_url(s[0]));
        assert forall|i: int| 0 <= i < k - 1 implies !ends_url(#[trigger] s.drop_first()[i]) by {
            assert(s.drop_first()[i] == s[i + 1]);
        }
        url_len_at_least(s.drop_first(), (k - 1) as nat);
    }
}

/// The tunnel URL found from `from` on is the URL at some position from
/// `from` on where a tunnel URL starts, and no tunnel URL starts before it.
proof fn tunnel_url_from_is_first(line: Seq<char>, from: nat)
    ensures
        tunnel_url_from(line, from) matches Some(u) ==> exists|i: int|
            from <= i < line.len() && is_tunnel_url_at(line, i) && u == url_at(line, i)
                && forall|j: int| from <= j < i ==> !is_tunnel_url_at(line, j),
        tunnel_url_from(line, from) is None ==> forall|j: int|
            from <= j < line.len() ==> !is_tunnel_url_at(line, j),
    decreases line.len() - from,
{
    if from < line.len() && !is_tunnel_url_at(line, from as int) {
        tunnel_url_from_is_first(line, from + 1);
        if let Some(u) = tunnel_url_from(line, from + 1) {
            let i = choose|i: int|
                from + 1 <= i < line.len() && is_tunnel_url_at(line, i) && u == url_at(line, i)
                    && forall|j: int| from + 1 <= j < i ==> !is_tunnel_url_at(line, j);
            assert(from <= i < line.len() && is_tunnel_url_at(line, i) && u == url_at(line, i)
                && forall|j: int| from <= j < i ==> !is_tunnel_url_at(line, j));
        }
    } else if from < line.len() {
        assert(forall|j: int| from <= j < from ==> !is_tunnel_url_at(line, j));
    }
}

/// The URL recognised in a line of tunnel output is the first `https://` URL
/// of the line that mentions `trycloudflare.com`: a piece of the line that
/// starts with `https://` and holds no whitespace or control character; a
/// line in which no such URL starts gives none.
pub proof fn tunnel_url_is_first_tunnel_https_url(line: Seq<char>)
    ensures
        tunnel_url_of(line) matches Some(u) ==> {
            &&& u.len() >= 8
            &&& u.take(8) == "https://"@
            &&& contains_seq(u, "trycloudflare.com"@)
            &&& forall|i: int| 0 <= i < u.len() ==> !ends_url(#[trigger] u[i])
            &&& exists|start: int|
                {
                    &&& occurs_at(line, u, start)
                    &&& is_tunnel_url_at(line, start)
                    &&& forall|j: int| 0 <= j < start ==> !is_tunnel_url_at(line, j)
                }
        },
        tunnel_url_of(line) is None ==> forall|j: int|
            0 <= j < line.len() ==> !is_tunnel_url_at(line, j),
{
    tunnel_url_from_is_first(line, 0);
    if let Some(u) = tunnel_url_of(line) {
        let st = choose|i: int|
            0 <= i < line.len() && is_tunnel_url_at(line, i) && u == url_at(line, i)
                && forall|j: int| 0 <= j < i ==> !is_tunnel_url_at(line, j);
        let pat = "https://"@;
        let rest = line.skip(st);
        reveal_strlit("https://");
        assert(pat.len() == 8);
        assert(line.subrange(st, st + 8) == pat);
        assert forall|i: int| 0 <= i < 8 implies !ends_url(#[trigger] rest[i]) by {
            assert(rest[i] == line.subrange(st, st + 8)[i]);
        }
        url_len_at_least(rest, 8);
        crate::tunnel::lemma_url_len(rest);
        assert(u.take(8) =~= pat) by {
            assert forall|i: int| 0 <= i < 8 implies u.take(8)[i] == pat[i] by {
                assert(u.take(8)[i] == rest[i]);
                assert(rest[i] == line.subrange(st, st + 8)[i]);
            }
        }
        assert forall|i: int| 0 <= i < u.len() implies !ends_url(#[trigger] u[i]) by {
            assert(u[i] == rest[i]);
        }
        assert(line.subrange(st, st + u.len() as int) =~= u);
        assert(occurs_at(line, u, st));
    }
}

/// Byte counts below 2^53 are taken exactly by the display.
pub proof fn counts_below_2_53_are_exact(b: nat)
    requires
        b < 0x20_0000_0000_0000,
    ensures
        as_double(b) == b,
{
    assert(crate::server::float_spacing(b) == 1);
    assert(b % 1 == 0 && b / 1 == b) by (nonlinear_arith);
    assert(crate::server::div_round_half_even(b, 1) == b);
    assert(b * 1 == b);
}

/// Sizes below 1024 bytes are shown exactly, as `{bytes}.0 B`.
pub proof fn small_sizes_are_shown_in_bytes(b: nat)
    requires
        b < 1024,
    ensures
        human_size_text(b) == decimal(b) + ".0 B"@,
{
    counts_below_2_53_are_exact(b);
    assert((b * 10) % 1 == 0 && (b * 10) / 1 == b * 10) by (nonlinear_arith);
    assert((b * 10) / 10 == b && (b * 10) % 10 == 0) by (nonlinear_arith);
    reveal_strlit(".0 B");
    reveal_strlit(".");
    reveal_strlit(" ");
    reveal_strlit("B");
    assert(human_size_text(b) =~= decimal(b) + ".0 B"@);
}

/// A file is previewed as an image exactly when its extension is that of a
/// raster format: PNG, JPEG, GIF, WebP or BMP (in any letter case).
pub proof fn previews_are_raster_images(name: Seq<char>)
    ensures
        is_image_name(name) <==> raster_extension(extension(name)),
{
    reveal_strlit("image/png");
    reveal_strlit("image/jpeg");
    reveal_strlit("image/gif");
    reveal_strlit("image/webp");
    reveal_strlit("image/bmp");
    reveal_strlit("image/svg+xml");
    reveal_strlit("image/x-icon");
    reveal_strlit("application/pdf");
    reveal_strlit("video/mp4");
    reveal_strlit("video/webm");
    reveal_strlit("video/quicktime");
    reveal_strlit("audio/mpeg");
    reveal_strlit("audio/wav");
    reveal_strlit("text/plain; charset=utf-8");
    reveal_strlit("application/octet-stream");
    assert("video/mp4"@[0] != "image/png"@[0]);
    assert("video/mp4"@[0] != "image/gif"@[0]);
    assert("video/mp4"@[0] != "image/bmp"@[0]);
    assert("video/webm"@[0] != "image/jpeg"@[0]);
    assert("video/webm"@[0] != "image/webp"@[0]);
    assert("audio/mpeg"@[0] != "image/jpeg"@[0]);
    assert("audio/mpeg"@[0] != "image/webp"@[0]);
    assert("audio/wav"@[0] != "image/png"@[0]);
    assert("audio/wav"@[0] != "image/gif"@[0]);
    assert("audio/wav"@[0] != "image/bmp"@[0]);
    assert("image/png"@.len() == 9);
    assert("image/jpeg"@.len() == 10);
    assert("image/gif"@.len() == 9);
    assert("image/webp"@.len() == 10);
    assert("image/bmp"@.len() == 9);
    assert("image/svg+xml"@.len() == 13);
    assert("image/x-icon"@.len() == 12);
    assert("application/pdf"@.len() == 15);
    assert("video/mp4"@.len() == 9);
    assert("video/webm"@.len() == 10);
    assert("video/quicktime"@.len() == 15);
    assert("audio/mpeg"@.len() == 10);
    assert("audio/wav"@.len() == 9);
    assert("text/plain; charset=utf-8"@.len() == 25);
    assert("application/octet-stream"@.len() == 24);
    let e = extension(name);
    if is_image_name(name) {
        assert(raster_extension(e));
    }
}

/// The extensions of the raster formats that previews show.
pub open spec fn raster_extension(e: Seq<char>) -> bool {
    e == "png"@ || e == "jpg"@ || e == "jpeg"@ || e == "gif"@ || e == "webp"@ || e == "bmp"@
}

/// Whether `s` starts with `p`.
pub open spec fn starts_with(s: Seq<char>, p: Seq<char>) -> bool {
    s.len() >= p.len() && s.take(p.len() as int) == p
}

/// Decoding of escaped HTML text in one left-to-right pass: each of the
/// references `&amp;`, `&lt;`, `&gt;`, `&quot;` and `&#x27;` becomes the
/// character it stands for; everything else is kept.
pub open spec fn unescape_html(s: Seq<char>) -> Seq<char>
    decreases s.len(),
{
    if s.len() == 0 {
        Seq::empty()
    } else if starts_with(s, seq!['&', 'a', 'm', 'p', ';']) {
        seq!['&'] + unescape_html(s.skip(5))
    } else if starts_with(s, seq!['&', 'l', 't', ';']) {
        seq!['<'] + unescape_html(s.skip(4))
    } else if starts_with(s, seq!['&', 'g', 't', ';']) {
        seq!['>'] + unescape_html(s.skip(4))
    } else if starts_with(s, seq!['&', 'q', 'u', 'o', 't', ';']) {
        seq!['"'] + unescape_html(s.skip(6))
    } else if starts_with(s, seq!['&', '#', 'x', '2', '7', ';']) {
        seq!['\''] + unescape_html(s.skip(6))
    } else {
        seq![s[0]] + unescape_html(s.drop_first())
    }
}

/// Escaping text piece by piece is escaping it whole.
proof fn escape_concat(a: Seq<char>, b: Seq<char>)
    ensures
        escape_html(a + b) == escape_html(a) + escape_html(b),
    decreases b.len(),
{
    if b.len() == 0 {
        assert(a + b =~= a);
        assert(escape_html(a) + escape_html(b) =~= escape_html(a));
    } else {
        escape_concat(a, b.drop_last());
        assert((a + b).drop_last() =~= a + b.drop_last());
        assert((a + b).last() == b.last());
        assert(escape_html(a + b) =~= escape_html(a) + escape_html(b));
    }
}

/// Text whose `k`-th character differs from that of `p` does not start
/// with `p`.
proof fn not_starts_with(s: Seq<char>, p: Seq<char>, k: int)
    requires
        0 <= k < p.len(),
        k < s.len(),
        s[k] != p[k],
    ensures
        !starts_with(s, p),
{
    if s.len() >= p.len() {
        assert(s.take(p.len() as int)[k] == s[k]);
    }
}

/// Decoding reads the escape of a character back as that character.
proof fn unescape_escaped_char(c: char, rest: Seq<char>)
    ensures
        unescape_html(escape_char(c) + rest) == seq![c] + unescape_html(rest),
{
    reveal_strlit("&amp;");
    reveal_strlit("&lt;");
    reveal_strlit("&gt;");
    reveal_strlit("&quot;");
    reveal_strlit("&#x27;");
    let e = escape_char(c);
    let s = e + rest;
    let amp = seq!['&', 'a', 'm', 'p', ';'];
    let lt = seq!['&', 'l', 't', ';'];
    let gt = seq!['&', 'g', 't', ';'];
    let quot = seq!['&', 'q', 'u', 'o', 't', ';'];
    let apos = seq!['&', '#', 'x', '2', '7', ';'];
    if c == '&' {
        assert(e =~= amp);
        assert(s.take(5) =~= e);
        assert(s.skip(5) =~= rest);
    } else if c == '<' {
        assert(e =~= lt);
        not_starts_with(s, amp, 1);
        assert(s.take(4) =~= e);
        assert(s.skip(4) =~= rest);
    } else if c == '>' {
        assert(e =~= gt);
        not_starts_with(s, amp, 1);
        not_starts_with(s, lt, 1);
        assert(s.take(4) =~= e);
        assert(s.skip(4) =~= rest);
    } else if c == '"' {
        assert(e =~= quot);
        not_starts_with(s, amp, 1);
        not_starts_with(s, lt, 1);
        not_starts_with(s, gt, 1);
        assert(s.take(6) =~= e);
        assert(s.skip(6) =~= rest);
    } else if c == '\'' {
        assert(e =~= apos);
        not_starts_with(s, amp, 1);
        not_starts_with(s, lt, 1);
        not_starts_with(s, gt, 1);
        not_starts_with(s, quot, 1);
        assert(s.take(6) =~= e);
        assert(s.skip(6) =~= rest);
    } else {
        assert(e == seq![c]);
        assert(s[0] == c);
        not_starts_with(s, amp, 0);
        not_starts_with(s, lt, 0);
        not_starts_with(s, gt, 0);
        not_starts_with(s, quot, 0);
        not_starts_with(s, apos, 0);
        assert(s.drop_first() =~= rest);
    }
}

/// Decoding escaped text gives the text back.
proof fn unescape_escape(s: Seq<char>)
    ensures
        unescape_html(escape_html(s)) == s,
    decreases s.len(),
{
    if s.len() > 0 {
        let rest = s.drop_first();
        unescape_escape(rest);
        assert(seq![s[0]] + rest =~= s);
        escape_concat(seq![s[0]], rest);
        assert(escape_html(seq![s[0]]) =~= escape_char(s[0])) by {
            assert(seq![s[0]].drop_last() =~= Seq::<char>::empty());
            assert(escape_html(Seq::<char>::empty()) == Seq::<char>::empty());
            assert(Seq::<char>::empty() + escape_char(s[0]) =~= escape_char(s[0]));
        }
        unescape_escaped_char(s[0], escape_html(rest));
        assert(seq![s[0]] + unescape_html(escape_html(rest)) =~= s);
    } else {
        assert(escape_html(s) == Seq::<char>::empty());
        assert(s =~= Seq::<char>::empty());
    }
}

/// Escaping can be undone exactly: decoding escaped text gives the text
/// back, so two different texts never escape to the same HTML.
pub proof fn escaping_is_reversible(s: Seq<char>, t: Seq<char>)
    ensures
        unescape_html(escape_html(s)) == s,
        escape_html(s) == escape_html(t) ==> s == t,
{
    unescape_escape(s);
    unescape_escape(t);
}

/// The extension of a name is what follows its last `.`, ASCII-lower-cased;
/// a name without `.` is its own extension.
pub proof fn extension_is_text_after_last_dot(p: Seq<char>, x: Seq<char>)
    requires
        forall|i: int| 0 <= i < x.len() ==> x[i] != '.',
    ensures
        extension(p + seq!['.'] + x) == x.map_values(|c: char| crate::server::ascii_lower(c)),
        extension(x) == x.map_values(|c: char| crate::server::ascii_lower(c)),
{
    after_last_dot_of_dotless(p + seq!['.'], x);
    after_last_dot_of_dotless(Seq::empty(), x);
    assert(Seq::<char>::empty() + x =~= x);
}

/// `after_last_dot` of a dot-free tail after a prefix that is empty or ends
/// with `.` is the tail.
proof fn after_last_dot_of_dotless(s: Seq<char>, x: Seq<char>)
    requires
        s.len() == 0 || s.last() == '.',
        forall|i: int| 0 <= i < x.len() ==> x[i] != '.',
    ensures
        crate::server::after_last_dot(s + x) == x,
    decreases x.len(),
{
    if x.len() == 0 {
        assert(s + x =~= s);
    } else {
        let y = x.drop_last();
        assert forall|i: int| 0 <= i < y.len() implies y[i] != '.' by {
            assert(y[i] == x[i]);
        }
        after_last_dot_of_dotless(s, y);
        assert((s + x).drop_last() =~= s + y);
        assert((s + x).last() == x.last());
        assert(x.last() == x[x.len() - 1]);
        assert(y.push(x.last()) =~= x);
    }
}

/// The content type served for each extension, whatever the rest of the name: PNG, JPEG, GIF, WebP, BMP, SVG and icon images, PDF, MP4, WebM and QuickTime video, MP3 and WAV audio, and UTF-8 plain text; every other extension is served as `application/octet-stream`.
pub proof fn content_types_by_extension(name: Seq<char>)
    ensures
        extension(name) == "png"@ ==> crate::server::content_type_of(name) == "image/png"@,
        extension(name) == "jpg"@ ==> crate::server::content_type_of(name) == "image/jpeg"@,
        extension(name) == "jpeg"@ ==> crate::server::content_type_of(name) == "image/jpeg"@,
        extension(name) == "gif"@ ==> crate::server::content_type_of(name) == "image/gif"@,
        extension(name) == "webp"@ ==> crate::server::content_type_of(name) == "image/webp"@,
        extension(name) == "bmp"@ ==> crate::server::content_type_of(name) == "image/bmp"@,
        extension(name) == "svg"@ ==> crate::server::content_type_of(name) == "image/svg+xml"@,
        extension(name) == "ico"@ ==> crate::server::content_type_of(name) == "image/x-icon"@,
        extension(name) == "pdf"@ ==> crate::server::content_type_of(name) == "application/pdf"@,
        extension(name) == "mp4"@ ==> crate::server::content_type_of(name) == "video/mp4"@,
        extension(name) == "webm"@ ==> crate::server::content_type_of(name) == "video/webm"@,
        extension(name) == "mov"@ ==> crate::server::content_type_of(name) == "video/quicktime"@,
        extension(name) == "mp3"@ ==> crate::server::content_type_of(name) == "audio/mpeg"@,
        extension(name) == "wav"@ ==> crate::server::content_type_of(name) == "audio/wav"@,
        extension(name) == "txt"@ ==> crate::server::content_type_of(name) == "text/plain; charset=utf-8"@,
        !(extension(name) == "png"@ || extension(name) == "jpg"@ || extension(name) == "jpeg"@ || extension(name) == "gif"@ || extension(name) == "webp"@ || extension(name) == "bmp"@ || extension(name) == "svg"@ || extension(name) == "ico"@ || extension(name) == "pdf"@ || extension(name) == "mp4"@ || extension(name) == "webm"@ || extension(name) == "mov"@ || extension(name) == "mp3"@ || extension(name) == "wav"@ || extension(name) == "txt"@) ==> crate::server::content_type_of(name) == "application/octet-stream"@,
{
    let e = extension(name);
    reveal_strlit("7z");
    reveal_strlit("bmp");
    reveal_strlit("doc");
    reveal_strlit("docx");
    reveal_strlit("gif");
    reveal_strlit("gz");
    reveal_strlit("ico");
    reveal_strlit("jpeg");
    reveal_strlit("jpg");
    reveal_strlit("md");
    reveal_strlit("mov");
    reveal_strlit("mp3");
    reveal_strlit("mp4");
    reveal_strlit("pdf");
    reveal_strlit("png");
    reveal_strlit("ppt");
    reveal_strlit("pptx");
    reveal_strlit("rar");
    reveal_strlit("svg");
    reveal_strlit("tar");
    reveal_strlit("txt");
    reveal_strlit("wav");
    reveal_strlit("webm");
    reveal_strlit("webp");
    reveal_strlit("xls");
    reveal_strlit("xlsx");
    reveal_strlit("zip");
    if e == "png"@ {
        assert(e.len() == 3 && e[0] == 'p' && e[1] == 'n' && e[2] == 'g');
    }
    if e == "jpg"@ {
        assert(e.len() == 3 && e[0] == 'j' && e[1] == 'p' && e[2] == 'g');
    }
    if e == "jpeg"@ {
        assert(e.len() == 4 && e[0] == 'j' && e[1] == 'p' && e[2] == 'e' && e[3] == 'g');
    }
    if e == "gif"@ {
        assert(e.len() == 3 && e[0] == 'g' && e[1] == 'i' && e[2] == 'f');
    }
    if e == "webp"@ {
        assert(e.len() == 4 && e[0] == 'w' && e[1] == 'e' && e[2] == 'b' && e[3] == 'p');
    }
    if e == "bmp"@ {
        assert(e.len() == 3 && e[0] == 'b' && e[1] == 'm' && e[2] == 'p');
    }
    if e == "svg"@ {
        assert(e.len() == 3 && e[0] == 's' && e[1] == 'v' && e[2] == 'g');
    }
    if e == "ico"@ {
        assert(e.len() == 3 && e[0] == 'i' && e[1] == 'c' && e[2] == 'o');
    }
    if e == "pdf"@ {
        assert(e.len() == 3 && e[0] == 'p' && e[1] == 'd' && e[2] == 'f');
    }
    if e == "mp4"@ {
        assert(e.len() == 3 && e[0] == 'm' && e[1] == 'p' && e[2] == '4');
    }
    if e == "webm"@ {
        assert(e.len() == 4 && e[0] == 'w' && e[1] == 'e' && e[2] == 'b' && e[3] == 'm');
    }
    if e == "mov"@ {
        assert(e.len() == 3 && e[0] == 'm' && e[1] == 'o' && e[2] == 'v');
    }
    if e == "mp3"@ {
        assert(e.len() == 3 && e[0] == 'm' && e[1] == 'p' && e[2] == '3');
    }
    if e == "wav"@ {
        assert(e.len() == 3 && e[0] == 'w' && e[1] == 'a' && e[2] == 'v');
    }
    if e == "txt"@ {
        assert(e.len() == 3 && e[0] == 't' && e[1] == 'x' && e[2] == 't');
    }
}

/// The kind label shown for each extension, whatever the rest of the name: one label per image format, `PDF document`, `Video` for MP4, WebM and MOV, `Audio` for MP3 and WAV, `Archive`, `Text document`, `Word document`, `Spreadsheet` and `Presentation` for their formats; every other extension is labelled `File`.
pub proof fn kind_labels_by_extension(name: Seq<char>)
    ensures
        extension(name) == "png"@ ==> crate::server::kind_label_of(name) == "PNG image"@,
        extension(name) == "jpg"@ ==> crate::server::kind_label_of(name) == "JPEG image"@,
        extension(name) == "jpeg"@ ==> crate::server::kind_label_of(name) == "JPEG image"@,
        extension(name) == "gif"@ ==> crate::server::kind_label_of(name) == "GIF image"@,
        extension(name) == "webp"@ ==> crate::server::kind_label_of(name) == "WebP image"@,
        extension(name) == "bmp"@ ==> crate::server::kind_label_of(name) == "Bitmap image"@,
        extension(name) == "svg"@ ==> crate::server::kind_label_of(name) == "SVG image"@,
        extension(name) == "pdf"@ ==> crate::server::kind_label_of(name) == "PDF document"@,
        extension(name) == "mp4"@ ==> crate::server::kind_label_of(name) == "Video"@,
        extension(name) == "webm"@ ==> crate::server::kind_label_of(name) == "Video"@,
        extension(name) == "mov"@ ==> crate::server::kind_label_of(name) == "Video"@,
        extension(name) == "mp3"@ ==> crate::server::kind_label_of(name) == "Audio"@,
        extension(name) == "wav"@ ==> crate::server::kind_label_of(name) == "Audio"@,
        extension(name) == "zip"@ ==> crate::server::kind_label_of(name) == "Archive"@,
        extension(name) == "gz"@ ==> crate::server::kind_label_of(name) == "Archive"@,
        extension(name) == "tar"@ ==> crate::server::kind_label_of(name) == "Archive"@,
        extension(name) == "rar"@ ==> crate::server::kind_label_of(name) == "Archive"@,
        extension(name) == "7z"@ ==> crate::server::kind_label_of(name) == "Archive"@,
        extension(name) == "txt"@ ==> crate::server::kind_label_of(name) == "Text document"@,
        extension(name) == "md"@ ==> crate::server::kind_label_of(name) == "Text document"@,
        extension(name) == "doc"@ ==> crate::server::kind_label_of(name) == "Word document"@,
        extension(name) == "docx"@ ==> crate::server::kind_label_of(name) == "Word document"@,
        extension(name) == "xls"@ ==> crate::server::kind_label_of(name) == "Spreadsheet"@,
        extension(name) == "xlsx"@ ==> crate::server::kind_label_of(name) == "Spreadsheet"@,
        extension(name) == "ppt"@ ==> crate::server::kind_label_of(name) == "Presentation"@,
        extension(name) == "pptx"@ ==> crate::server::kind_label_of(name) == "Presentation"@,
        !(extension(name) == "png"@ || extension(name) == "jpg"@ || extension(name) == "jpeg"@ || extension(name) == "gif"@ || extension(name) == "webp"@ || extension(name) == "bmp"@ || extension(name) == "svg"@ || extension(name) == "pdf"@ || extension(name) == "mp4"@ || extension(name) == "webm"@ || extension(name) == "mov"@ || extension(name) == "mp3"@ || extension(name) == "wav"@ || extension(name) == "zip"@ || extension(name) == "gz"@ || extension(name) == "tar"@ || extension(name) == "rar"@ || extension(name) == "7z"@ || extension(name) == "txt"@ || extension(name) == "md"@ || extension(name) == "doc"@ || extension(name) == "docx"@ || extension(name) == "xls"@ || extension(name) == "xlsx"@ || extension(name) == "ppt"@ || extension(name) == "pptx"@) ==> crate::server::kind_label_of(name) == "File"@,
{
    let e = extension(name);
    reveal_strlit("7z");
    reveal_strlit("bmp");
    reveal_strlit("doc");
    reveal_strlit("docx");
    reveal_strlit("gif");
    reveal_strlit("gz");
    reveal_strlit("ico");
    reveal_strlit("jpeg");
    reveal_strlit("jpg");
    reveal_strlit("md");
    reveal_strlit("mov");
    reveal_strlit("mp3");
    reveal_strlit("mp4");
    reveal_strlit("pdf");
    reveal_strlit("png");
    reveal_strlit("ppt");
    reveal_strlit("pptx");
    reveal_strlit("rar");
    reveal_strlit("svg");
    reveal_strlit("tar");
    reveal_strlit("txt");
    reveal_strlit("wav");
    reveal_strlit("webm");
    reveal_strlit("webp");
    reveal_strlit("xls");
    reveal_strlit("xlsx");
    reveal_strlit("zip");
    if e == "png"@ {
        assert(e.len() == 3 && e[0] == 'p' && e[1] == 'n' && e[2] == 'g');
    }
    if e == "jpg"@ {
        assert(e.len() == 3 && e[0] == 'j' && e[1] == 'p' && e[2] == 'g');
    }
    if e == "jpeg"@ {
        assert(e.len() == 4 && e[0] == 'j' && e[1] == 'p' && e[2] == 'e' && e[3] == 'g');
    }
    if e == "gif"@ {
        assert(e.len() == 3 && e[0] == 'g' && e[1] == 'i' && e[2] == 'f');
    }
    if e == "webp"@ {
        assert(e.len() == 4 && e[0] == 'w' && e[1] == 'e' && e[2] == 'b' && e[3] == 'p');
    }
    if e == "bmp"@ {
        assert(e.len() == 3 && e[0] == 'b' && e[1] == 'm' && e[2] == 'p');
    }
    if e == "svg"@ {
        assert(e.len() == 3 && e[0] == 's' && e[1] == 'v' && e[2] == 'g');
    }
    if e == "pdf"@ {
        assert(e.len() == 3 && e[0] == 'p' && e[1] == 'd' && e[2] == 'f');
    }
    if e == "mp4"@ {
        assert(e.len() == 3 && e[0] == 'm' && e[1] == 'p' && e[2] == '4');
    }
    if e == "webm"@ {
        assert(e.len() == 4 && e[0] == 'w' && e[1] == 'e' && e[2] == 'b' && e[3] == 'm');
    }
    if e == "mov"@ {
        assert(e.len() == 3 && e[0] == 'm' && e[1] == 'o' && e[2] == 'v');
    }
    if e == "mp3"@ {
        assert(e.len() == 3 && e[0] == 'm' && e[1] == 'p' && e[2] == '3');
    }
    if e == "wav"@ {
        assert(e.len() == 3 && e[0] == 'w' && e[1] == 'a' && e[2] == 'v');
    }
    if e == "zip"@ {
        assert(e.len() == 3 && e[0] == 'z' && e[1] == 'i' && e[2] == 'p');
    }
    if e == "gz"@ {
        assert(e.len() == 2 && e[0] == 'g' && e[1] == 'z');
    }
    if e == "tar"@ {
        assert(e.len() == 3 && e[0] == 't' && e[1] == 'a' && e[2] == 'r');
    }
    if e == "rar"@ {
        assert(e.len() == 3 && e[0] == 'r' && e[1] == 'a' && e[2] == 'r');
    }
    if e == "7z"@ {
        assert(e.len() == 2 && e[0] == '7' && e[1] == 'z');
    }
    if e == "txt"@ {
        assert(e.len() == 3 && e[0] == 't' && e[1] == 'x' && e[2] == 't');
    }
    if e == "md"@ {
        assert(e.len() == 2 && e[0] == 'm' && e[1] == 'd');
    }
    if e == "doc"@ {
        assert(e.len() == 3 && e[0] == 'd' && e[1] == 'o' && e[2] == 'c');
    }
    if e == "docx"@ {
        assert(e.len() == 4 && e[0] == 'd' && e[1] == 'o' && e[2] == 'c' && e[3] == 'x');
    }
    if e == "xls"@ {
        assert(e.len() == 3 && e[0] == 'x' && e[1] == 'l' && e[2] == 's');
    }
    if e == "xlsx"@ {
        assert(e.len() == 4 && e[0] == 'x' && e[1] == 'l' && e[2] == 's' && e[3] == 'x');
    }
    if e == "ppt"@ {
        assert(e.len() == 3 && e[0] == 'p' && e[1] == 'p' && e[2] == 't');
    }
    if e == "pptx"@ {
        assert(e.len() == 4 && e[0] == 'p' && e[1] == 'p' && e[2] == 't' && e[3] == 'x');
    }
}

/// A protected share asked for with a non-empty password that argon2
/// accepts for its hash is served as an attachment; so is an unprotected
/// share, whatever the request carries.
pub proof fn accepted_password_downloads(
    token: Seq<char>,
    share: &Share,
    provided: Seq<char>,
    r: Reply,
)
    requires
        download_reply_of(token, Some(share), provided, r),
        share.password_hash is None || (provided.len() > 0 && argon2_accepts(
            provided,
            share.password_hash->0@,
        )),
    ensures
        r matches Reply::Serve(f) && f.content_type@ == "application/octet-stream"@
            && f.content_length == share.size && f.disposition@
            == crate::reply::disposition_of(false, share.name@),
{
}

/// A new share is shown under the file's own name, and under `file` only
/// when the path has no file name.
pub proof fn share_name_is_the_file_name(file_name: Option<Seq<char>>)
    ensures
        file_name matches Some(n) ==> crate::state::display_name(file_name) == n,
        file_name is None ==> crate::state::display_name(file_name) == "file"@,
{
}

/// Whether every character of `s` is an ASCII digit.
pub open spec fn all_digits(s: Seq<char>) -> bool {
    forall|i: int| 0 <= i < s.len() ==> '0' <= #[trigger] s[i] && s[i] <= '9'
}

/// The number a string of ASCII digits reads as in base ten.
pub open spec fn digits_value(s: Seq<char>) -> nat
    decreases s.len(),
{
    if s.len() == 0 {
        0
    } else {
        digits_value(s.drop_last()) * 10 + ((s.last() as u32) - 48) as nat
    }
}

/// The digit for a value below ten is the ASCII digit of that value.
proof fn digit_char_value(d: nat)
    requires
        d < 10,
    ensures
        crate::text::digit_char(d) as u32 == 48 + d,
        '0' <= crate::text::digit_char(d) <= '9',
        d > 0 ==> crate::text::digit_char(d) != '0',
{
    let v: u32 = (48 + d) as u32;
    assert(v as char as u32 == v);
}

/// The decimal numeral of `n` is a non-empty string of ASCII digits that
/// reads back as `n`, with no leading zero unless it is `0` itself.
pub proof fn decimal_reads_back(n: nat)
    ensures
        decimal(n).len() > 0,
        all_digits(decimal(n)),
        digits_value(decimal(n)) == n,
        decimal(n).len() > 1 ==> decimal(n)[0] != '0',
        decimal(n).len() > 1 <==> n >= 10,
    decreases n,
{
    if n < 10 {
        digit_char_value(n);
        let d = decimal(n);
        assert(d.drop_last() =~= Seq::<char>::empty());
        assert(d.last() == crate::text::digit_char(n));
        assert(digits_value(d.drop_last()) == 0);
        assert(digits_value(d) == n);
    } else {
        digit_char_value(n % 10);
        digit_char_value(n / 10 % 10);
        decimal_reads_back(n / 10);
        let d = decimal(n);
        let prev = decimal(n / 10);
        assert(d == prev.push(crate::text::digit_char(n % 10)));
        assert(d.drop_last() =~= prev);
        assert forall|i: int| 0 <= i < d.len() implies '0' <= #[trigger] d[i] && d[i] <= '9' by {
            if i < prev.len() {
                assert(d[i] == prev[i]);
            }
        }
        assert(d[0] == prev[0]);
        if prev.len() == 1 && n / 10 < 10 {
            assert(n / 10 >= 1);
            digit_char_value(n / 10);
            assert(prev[0] == crate::text::digit_char(n / 10));
        }
        assert(n == (n / 10) * 10 + n % 10);
        assert(d.last() == crate::text::digit_char(n % 10));
        assert(digits_value(d) == digits_value(prev) * 10 + n % 10);
    }
}

/// With no extra arguments, `cloudflared` is started as
/// `tunnel --url http://127.0.0.1:<port>`, the port written in decimal
/// digits that read back as the port; extra arguments are passed as they
/// are, in place of these.
pub proof fn tunnel_args_name_the_port(extra: Seq<Seq<char>>, port: u16)
    ensures
        extra.len() == 0 ==> {
            let args = crate::tunnel::tunnel_args_of(extra, port);
            &&& args.len() == 3
            &&& args[0] == "tunnel"@
            &&& args[1] == "--url"@
            &&& args[2].len() > 17
            &&& args[2].take(17) == "http://127.0.0.1:"@
            &&& all_digits(args[2].skip(17))
            &&& digits_value(args[2].skip(17)) == port
        },
        extra.len() > 0 ==> crate::tunnel::tunnel_args_of(extra, port) == extra,
{
    if extra.len() == 0 {
        decimal_reads_back(port as nat);
        reveal_strlit("http://127.0.0.1:");
        let url = "http://127.0.0.1:"@ + decimal(port as nat);
        assert(url.take(17) =~= "http://127.0.0.1:"@);
        assert(url.skip(17) =~= decimal(port as nat));
    }
}

/// Sanitizing a name piece by piece is sanitizing it whole.
proof fn sanitize_concat(a: Seq<char>, b: Seq<char>)
    ensures
        sanitized(a + b) == sanitized(a) + sanitized(b),
    decreases b.len(),
{
    if b.len() == 0 {
        assert(a + b =~= a);
        assert(sanitized(a) + sanitized(b) =~= sanitized(a));
    } else {
        sanitize_concat(a, b.drop_last());
        assert((a + b).drop_last() =~= a + b.drop_last());
        assert((a + b).last() == b.last());
        assert(sanitized(a + b) =~= sanitized(a) + sanitized(b));
    }
}

/// In a header-safe file name each `"` becomes `_`, each control character
/// is dropped, and every other character is kept, in place.
pub proof fn sanitizing_replaces_quotes_and_drops_controls(p: Seq<char>, c: char, q: Seq<char>)
    ensures
        c == '"' ==> sanitized(p + seq![c] + q) == sanitized(p) + seq!['_'] + sanitized(q),
        is_control(c) ==> sanitized(p + seq![c] + q) == sanitized(p) + sanitized(q),
        c != '"' && !is_control(c) ==> sanitized(p + seq![c] + q) == sanitized(p) + seq![c]
            + sanitized(q),
{
    sanitize_concat(p + seq![c], q);
    sanitize_concat(p, seq![c]);
    assert(seq![c].drop_last() =~= Seq::<char>::empty());
    assert(sanitized(Seq::<char>::empty()) == Seq::<char>::empty());
    if c == '"' {
        assert(sanitized(seq![c]) =~= seq!['_']);
    } else if is_control(c) {
        assert(sanitized(seq![c]) =~= Seq::<char>::empty());
        assert(sanitized(p) + Seq::<char>::empty() =~= sanitized(p));
    } else {
        assert(sanitized(seq![c]) =~= seq![c]);
    }
}

/// The public base URL of a request is `<scheme>://<host>`, the scheme being
/// `X-Forwarded-Proto` when present and `https` otherwise; there is none
/// without a `Host` header.
pub proof fn base_url_is_scheme_and_host(host: Option<Seq<char>>, proto: Option<Seq<char>>)
    ensures
        host is None ==> crate::server::base_url_of(host, proto) is None,
        host matches Some(h) ==> crate::server::base_url_of(host, proto) == Some(
            match proto {
                Some(p) => p,
                None => "https"@,
            } + "://"@ + h,
        ),
{
}

/// A share's public link is `<base>/d/<token>`, and there is none while the
/// tunnel's base URL is unknown.
pub proof fn link_is_base_and_token(base: Option<Seq<char>>, token: Seq<char>)
    ensures
        base is None ==> crate::commands::link_of(base, token) is None,
        base matches Some(b) ==> crate::commands::link_of(base, token) == Some(b + "/d/"@ + token),
{
}

/// Every answer to a download request: 404 for an unknown token; for a
/// protected share a redirect to `/d/<token>` without a password and 401
/// with a password argon2 refuses; otherwise the file as an attachment with
/// the sanitized name.
pub proof fn download_answers(token: Seq<char>, share: Option<&Share>, provided: Seq<char>, r: Reply)
    requires
        download_reply_of(token, share, provided, r),
    ensures
        share is None ==> r == Reply::NotFound("Link not found or revoked."),
        share matches Some(s) ==> {
            &&& (s.password_hash is Some && provided.len() == 0) ==> (r matches Reply::SeeOther(
                loc,
            ) && loc@ == "/d/"@ + token)
            &&& (s.password_hash is Some && provided.len() > 0 && !argon2_accepts(
                provided,
                s.password_hash->0@,
            )) ==> r == Reply::Unauthorized("Incorrect password.")
            &&& (s.password_hash is None || (provided.len() > 0 && argon2_accepts(
                provided,
                s.password_hash->0@,
            ))) ==> (r matches Reply::Serve(f) && f.content_type@ == "application/octet-stream"@
                && f.content_length == s.size && f.disposition@ == "attachment"@
                + "; filename=\""@ + sanitized(s.name@) + "\""@)
        },
{
}

/// Every answer to a request for the inline view: 404 for an unknown token or
/// a protected share; otherwise the file inline with the content type of its
/// name and its sanitized name.
pub proof fn raw_answers(share: Option<&Share>, r: Reply)
    requires
        raw_reply_of(share, r),
    ensures
        share is None ==> r == Reply::NotFound("Link not found or revoked."),
        share matches Some(s) ==> {
            &&& s.password_hash is Some ==> r == Reply::NotFound("Not available.")
            &&& s.password_hash is None ==> (r matches Reply::Serve(f) && f.content_type@
                == crate::server::content_type_of(s.name@) && f.content_length == s.size
                && f.disposition@ == "inline"@ + "; filename=\""@ + sanitized(s.name@) + "\""@)
        },
{
}

/// Whether `s` ends with `t`.
pub open spec fn ends_with(s: Seq<char>, t: Seq<char>) -> bool {
    s.len() >= t.len() && s.skip(s.len() - t.len()) == t
}

/// The landing page ends with its download control: for a protected share a
/// POST form with a password field, otherwise a plain GET link to
/// `/d/<token>/download`; the token is escaped in both.
pub proof fn landing_page_ends_with_download_control(
    token: Seq<char>,
    name: Seq<char>,
    size: u64,
    needs_pw: bool,
    base: Option<Seq<char>>,
)
    ensures
        ends_with(
            crate::reply::landing_html_of(token, name, size, needs_pw, base),
            (if needs_pw {
                "<form method=\"post\" action=\"/d/"@ + escape_html(token)
                    + "/download\">\n<input type=\"password\" name=\"password\" placeholder=\"Password\" required /><br/>\n<button type=\"submit\">Download</button></form>"@
            } else {
                "<a href=\"/d/"@ + escape_html(token) + "/download\"><button>Download</button></a>"@
            }) + "</body></html>"@,
        ),
{
    let page = crate::reply::landing_html_of(token, name, size, needs_pw, base);
    let w = crate::reply::widget_html(token, needs_pw);
    let tail = w + "</body></html>"@;
    let head = page.take(page.len() - tail.len());
    assert(page.skip(page.len() - tail.len()) =~= tail);
}

} // verus!
