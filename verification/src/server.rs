//! What the share server answers: content types, file-kind labels, HTML
//! escaping, header-safe file names, human-readable sizes.

use vstd::prelude::*;
use crate::text::push_char;
use crate::text::str_eq;
use crate::text::str_opt;
use crate::text::string_opt;
use crate::text::decimal;
use crate::text::decimal_string;
use crate::text::digit;
use crate::text::digit_char;

verus! {

/// The HTML escape of one character.
pub open spec fn escape_char(c: char) -> Seq<char> {
    if c == '&' {
        "&amp;"@
    } else if c == '<' {
        "&lt;"@
    } else if c == '>' {
        "&gt;"@
    } else if c == '"' {
        "&quot;"@
    } else if c == '\'' {
        "&#x27;"@
    } else {
        seq![c]
    }
}

/// The HTML escape of a string: every character replaced by its escape.
pub open spec fn escape_html(s: Seq<char>) -> Seq<char>
    decreases s.len(),
{
    if s.len() == 0 {
        Seq::empty()
    } else {
        escape_html(s.drop_last()) + escape_char(s.last())
    }
}

/// Escapes a string for safe interpolation into HTML text and attribute
/// contexts: `&`, `<`, `>`, `"` and `'` become character references.
pub fn html_escape(s: &str) -> (r: String)
    ensures
        r@ == escape_html(s@),
{
    let mut out = String::new();
    for c in it: s.chars()
        invariant
            out@ == escape_html(it.seq().take(it.index() as int)),
            it.seq() == s@,
    {
        let ghost before = it.seq().take(it.index() as int);
        if c == '&' {
            out.append("&amp;");
        } else if c == '<' {
            out.append("&lt;");
        } else if c == '>' {
            out.append("&gt;");
        } else if c == '"' {
            out.append("&quot;");
        } else if c == '\'' {
            out.append("&#x27;");
        } else {
            push_char(&mut out, c);
        }
        assert(it.seq().take(it.index() + 1).drop_last() =~= before);
    }
    assert(s@.take(s@.len() as int) =~= s@);
    out
}


/// Whether a character is a control character (general category Cc:
/// U+0000..=U+001F and U+007F..=U+009F), as `char::is_control` answers.
pub open spec fn is_control(c: char) -> bool {
    (c as u32) <= 0x1f || (0x7f <= (c as u32) && (c as u32) <= 0x9f)
}

/// `is_control` for executable code.
pub fn char_is_control(c: char) -> (r: bool)
    ensures
        r == is_control(c),
{
    let v = c as u32;
    v <= 0x1f || (0x7f <= v && v <= 0x9f)
}

/// A file name made safe for a quoted `Content-Disposition` parameter:
/// every `"` becomes `_` and every control character is dropped.
pub open spec fn sanitized(s: Seq<char>) -> Seq<char>
    decreases s.len(),
{
    if s.len() == 0 {
        Seq::empty()
    } else {
        let c = if s.last() == '"' { '_' } else { s.last() };
        if is_control(c) {
            sanitized(s.drop_last())
        } else {
            sanitized(s.drop_last()).push(c)
        }
    }
}

/// Sanitizes a file name for use in a `Content-Disposition` header value:
/// strips quotes (which would break the quoted-string) and control characters
/// (which could inject CRLF and split the response).
pub fn sanitize_filename(s: &str) -> (r: String)
    ensures
        r@ == sanitized(s@),
{
    let mut out = String::new();
    for c in it: s.chars()
        invariant
            out@ == sanitized(it.seq().take(it.index() as int)),
            it.seq() == s@,
    {
        let ghost before = it.seq().take(it.index() as int);
        let d = if c == '"' { '_' } else { c };
        if !char_is_control(d) {
            push_char(&mut out, d);
        }
        assert(it.seq().take(it.index() + 1).drop_last() =~= before);
    }
    assert(s@.take(s@.len() as int) =~= s@);
    out
}

/// ASCII lower-casing of one character; other characters are unchanged.
pub open spec fn ascii_lower(c: char) -> char {
    if 'A' <= c && c <= 'Z' {
        ((c as u32) + 32) as char
    } else {
        c
    }
}

/// What follows the last `.` of a name (the whole name if it has none).
pub open spec fn after_last_dot(s: Seq<char>) -> Seq<char>
    decreases s.len(),
{
    if s.len() == 0 {
        Seq::empty()
    } else if s.last() == '.' {
        Seq::empty()
    } else {
        after_last_dot(s.drop_last()).push(s.last())
    }
}

/// The extension of a file name as the server matches it: the text after the
/// last `.`, ASCII-lower-cased.
pub open spec fn extension(name: Seq<char>) -> Seq<char> {
    after_last_dot(name).map_values(|c: char| ascii_lower(c))
}

/// Computes `extension(name)`.
fn extension_of(name: &str) -> (r: String)
    ensures
        r@ == extension(name@),
{
    let mut out = String::new();
    for c in it: name.chars()
        invariant
            out@ == extension(it.seq().take(it.index() as int)),
            it.seq() == name@,
    {
        let ghost before = it.seq().take(it.index() as int);
        let ghost now = it.seq().take(it.index() + 1);
        assert(now.drop_last() =~= before);
        if c == '.' {
            out = String::new();
            assert(extension(now) =~= Seq::<char>::empty());
        } else {
            let l = if 'A' <= c && c <= 'Z' {
                ((c as u8) + 32) as char
            } else {
                c
            };
            push_char(&mut out, l);
            assert(extension(now) =~= extension(before).push(ascii_lower(c)));
        }
    }
    assert(name@.take(name@.len() as int) =~= name@);
    out
}

/// The content type served for a file name, chosen by its extension.
pub open spec fn content_type_of(name: Seq<char>) -> Seq<char> {
    let e = extension(name);
    if e == "png"@ {
        "image/png"@
    } else if e == "jpg"@ || e == "jpeg"@ {
        "image/jpeg"@
    } else if e == "gif"@ {
        "image/gif"@
    } else if e == "webp"@ {
        "image/webp"@
    } else if e == "bmp"@ {
        "image/bmp"@
    } else if e == "svg"@ {
        "image/svg+xml"@
    } else if e == "ico"@ {
        "image/x-icon"@
    } else if e == "pdf"@ {
        "application/pdf"@
    } else if e == "mp4"@ {
        "video/mp4"@
    } else if e == "webm"@ {
        "video/webm"@
    } else if e == "mov"@ {
        "video/quicktime"@
    } else if e == "mp3"@ {
        "audio/mpeg"@
    } else if e == "wav"@ {
        "audio/wav"@
    } else if e == "txt"@ {
        "text/plain; charset=utf-8"@
    } else {
        "application/octet-stream"@
    }
}

/// Maps a file extension to a content type for inline serving / link previews.
pub fn content_type_for(name: &str) -> (r: &'static str)
    ensures
        r@ == content_type_of(name@),
{
    let ext = extension_of(name);
    let e = ext.as_str();
    if str_eq(e, "png") {
        "image/png"
    } else if str_eq(e, "jpg") || str_eq(e, "jpeg") {
        "image/jpeg"
    } else if str_eq(e, "gif") {
        "image/gif"
    } else if str_eq(e, "webp") {
        "image/webp"
    } else if str_eq(e, "bmp") {
        "image/bmp"
    } else if str_eq(e, "svg") {
        "image/svg+xml"
    } else if str_eq(e, "ico") {
        "image/x-icon"
    } else if str_eq(e, "pdf") {
        "application/pdf"
    } else if str_eq(e, "mp4") {
        "video/mp4"
    } else if str_eq(e, "webm") {
        "video/webm"
    } else if str_eq(e, "mov") {
        "video/quicktime"
    } else if str_eq(e, "mp3") {
        "audio/mpeg"
    } else if str_eq(e, "wav") {
        "audio/wav"
    } else if str_eq(e, "txt") {
        "text/plain; charset=utf-8"
    } else {
        "application/octet-stream"
    }
}

/// Whether a name is served as a raster image usable as a preview thumbnail:
/// its content type is PNG, JPEG, GIF, WebP or BMP.
pub open spec fn is_image_name(name: Seq<char>) -> bool {
    let t = content_type_of(name);
    t == "image/png"@ || t == "image/jpeg"@ || t == "image/gif"@ || t == "image/webp"@
        || t == "image/bmp"@
}

/// True if the file looks like a raster image we can use as a preview thumbnail.
pub fn is_image(name: &str) -> (r: bool)
    ensures
        r == is_image_name(name@),
{
    let t = content_type_for(name);
    str_eq(t, "image/png") || str_eq(t, "image/jpeg") || str_eq(t, "image/gif") || str_eq(
        t,
        "image/webp",
    ) || str_eq(t, "image/bmp")
}

/// The human-friendly kind label shown under a share's name.
pub open spec fn kind_label_of(name: Seq<char>) -> Seq<char> {
    let e = extension(name);
    if e == "png"@ {
        "PNG image"@
    } else if e == "jpg"@ || e == "jpeg"@ {
        "JPEG image"@
    } else if e == "gif"@ {
        "GIF image"@
    } else if e == "webp"@ {
        "WebP image"@
    } else if e == "bmp"@ {
        "Bitmap image"@
    } else if e == "svg"@ {
        "SVG image"@
    } else if e == "pdf"@ {
        "PDF document"@
    } else if e == "mp4"@ || e == "webm"@ || e == "mov"@ {
        "Video"@
    } else if e == "mp3"@ || e == "wav"@ {
        "Audio"@
    } else if e == "zip"@ || e == "gz"@ || e == "tar"@ || e == "rar"@ || e == "7z"@ {
        "Archive"@
    } else if e == "txt"@ || e == "md"@ {
        "Text document"@
    } else if e == "doc"@ || e == "docx"@ {
        "Word document"@
    } else if e == "xls"@ || e == "xlsx"@ {
        "Spreadsheet"@
    } else if e == "ppt"@ || e == "pptx"@ {
        "Presentation"@
    } else {
        "File"@
    }
}

/// Human-friendly file-kind label for the preview subtitle, e.g. "PNG image".
pub fn kind_label(name: &str) -> (r: &'static str)
    ensures
        r@ == kind_label_of(name@),
{
    let ext = extension_of(name);
    let e = ext.as_str();
    if str_eq(e, "png") {
        "PNG image"
    } else if str_eq(e, "jpg") || str_eq(e, "jpeg") {
        "JPEG image"
    } else if str_eq(e, "gif") {
        "GIF image"
    } else if str_eq(e, "webp") {
        "WebP image"
    } else if str_eq(e, "bmp") {
        "Bitmap image"
    } else if str_eq(e, "svg") {
        "SVG image"
    } else if str_eq(e, "pdf") {
        "PDF document"
    } else if str_eq(e, "mp4") || str_eq(e, "webm") || str_eq(e, "mov") {
        "Video"
    } else if str_eq(e, "mp3") || str_eq(e, "wav") {
        "Audio"
    } else if str_eq(e, "zip") || str_eq(e, "gz") || str_eq(e, "tar") || str_eq(e, "rar")
        || str_eq(e, "7z") {
        "Archive"
    } else if str_eq(e, "txt") || str_eq(e, "md") {
        "Text document"
    } else if str_eq(e, "doc") || str_eq(e, "docx") {
        "Word document"
    } else if str_eq(e, "xls") || str_eq(e, "xlsx") {
        "Spreadsheet"
    } else if str_eq(e, "ppt") || str_eq(e, "pptx") {
        "Presentation"
    } else {
        "File"
    }
}

/// The public base URL (`scheme://host`) of a request, from its `Host` header
/// and its `X-Forwarded-Proto` header; the scheme defaults to `https`.
/// `None` when the request carries no usable `Host` header.
pub open spec fn base_url_of(host: Option<Seq<char>>, proto: Option<Seq<char>>) -> Option<
    Seq<char>,
> {
    match host {
        None => None,
        Some(h) => {
            let scheme = match proto {
                Some(p) => p,
                None => "https"@,
            };
            Some(scheme + "://"@ + h)
        },
    }
}

/// Reconstructs the public base URL (scheme://host) from the request's `Host`
/// and `X-Forwarded-Proto` header values (each `None` when the header is
/// absent or not visible ASCII). Cloudflare quick tunnels are HTTPS and set
/// `x-forwarded-proto`; fall back to https for any tunneled request.
pub fn base_url(host: Option<&str>, proto: Option<&str>) -> (r: Option<String>)
    ensures
        string_opt(r) == base_url_of(str_opt(host), str_opt(proto)),
{
    match host {
        None => None,
        Some(h) => {
            let mut out = String::new();
            match proto {
                Some(p) => out.append(p),
                None => out.append("https"),
            }
            out.append("://");
            out.append(h);
            Some(out)
        },
    }
}


/// `n / d` rounded to the nearest integer, ties to the even one.
pub open spec fn div_round_half_even(n: nat, d: nat) -> nat
    recommends
        d > 0,
{
    let q = n / d;
    let r = n % d;
    if 2 * r > d || (2 * r == d && q % 2 == 1) {
        q + 1
    } else {
        q
    }
}

/// The spacing of double-precision floats around a non-negative integer `b`:
/// 1 below 2^53, doubling with every further binary digit.
pub open spec fn float_spacing(b: nat) -> nat
    decreases b,
{
    if b < 0x20_0000_0000_0000 {
        1
    } else {
        2 * float_spacing(b / 2)
    }
}

/// The value of `b as f64`: the nearest double, ties to an even significand.
pub open spec fn as_double(b: nat) -> nat {
    div_round_half_even(b, float_spacing(b)) * float_spacing(b)
}

/// The unit a size is shown in: 0 (B), 1 (KB), 2 (MB) or 3 (GB), the largest
/// whose scale does not exceed the size (B for sizes below 1024).
pub open spec fn size_unit(v: nat) -> nat {
    if v >= 0x4000_0000 {
        3
    } else if v >= 0x10_0000 {
        2
    } else if v >= 0x400 {
        1
    } else {
        0
    }
}

/// 1024 to the power of a unit.
pub open spec fn unit_scale(u: nat) -> nat {
    if u == 0 {
        1
    } else if u == 1 {
        0x400
    } else if u == 2 {
        0x10_0000
    } else {
        0x4000_0000
    }
}

/// The name of a unit.
pub open spec fn unit_name(u: nat) -> Seq<char> {
    if u == 0 {
        "B"@
    } else if u == 1 {
        "KB"@
    } else if u == 2 {
        "MB"@
    } else {
        "GB"@
    }
}

/// A byte count as shown on a landing page: the size in its unit with one
/// decimal, rounded to nearest (ties to even), e.g. `1.5 KB`.
pub open spec fn human_size_text(bytes: nat) -> Seq<char> {
    let v = as_double(bytes);
    let u = size_unit(v);
    let tenths = div_round_half_even(v * 10, unit_scale(u));
    decimal(tenths / 10) + "."@ + seq![digit_char(tenths % 10)] + " "@ + unit_name(u)
}

/// Computes `as_double(b)`.
fn double_value(b: u64) -> (r: u128)
    ensures
        r == as_double(b as nat),
        r <= 0x2_0000_0000_0000_0000,
{
    let mut t: u64 = b;
    let mut step: u64 = 1;
    while t >= 0x20_0000_0000_0000
        invariant
            1 <= step <= 0x1000,
            t == b / step,
            step * float_spacing(t as nat) == float_spacing(b as nat),
        decreases t,
    {
        assert((b as int / step as int) / 2 == b as int / (step as int * 2)) by {
            vstd::arithmetic::div_mod::lemma_div_denominator(b as int, step as int, 2);
        }
        assert(step < 0x800) by (nonlinear_arith)
            requires
                t == b / step,
                step >= 1,
                t >= 0x20_0000_0000_0000,
                b < 0x1_0000_0000_0000_0000,
        {
            assert(step * t <= b);
            assert(step * 0x20_0000_0000_0000 <= step * t);
        }
        assert(step * float_spacing(t as nat) == (step * 2) * float_spacing((t / 2) as nat))
            by (nonlinear_arith)
            requires
                float_spacing(t as nat) == 2 * float_spacing((t / 2) as nat),
        {
        }
        t = t / 2;
        step = step * 2;
    }
    assert(float_spacing(t as nat) == 1);
    assert(float_spacing(b as nat) == step) by (nonlinear_arith)
        requires
            float_spacing(t as nat) == 1,
            step * float_spacing(t as nat) == float_spacing(b as nat),
    {
    }
    let q: u64 = b / step;
    let r: u64 = b % step;
    let rounded: u128 = if (r as u128) * 2 > step as u128 || ((r as u128) * 2 == step as u128 && q
        % 2 == 1) {
        q as u128 + 1
    } else {
        q as u128
    };
    assert(rounded * step <= 0x2_0000_0000_0000_0000) by (nonlinear_arith)
        requires
            rounded <= 0x20_0000_0000_0000,
            step <= 0x1000,
    {
    }
    rounded * (step as u128)
}

/// Formats a byte count for humans with one decimal and the largest unit
/// among B, KB, MB and GB that keeps the value at least 1 (or B), e.g.
/// `1.5 KB`; the count is first taken as a double, as the display does.
pub fn human_size(bytes: u64) -> (r: String)
    ensures
        r@ == human_size_text(bytes as nat),
{
    let v = double_value(bytes);
    let (unit, scale): (u64, u128) = if v >= 0x4000_0000 {
        (3, 0x4000_0000)
    } else if v >= 0x10_0000 {
        (2, 0x10_0000)
    } else if v >= 0x400 {
        (1, 0x400)
    } else {
        (0, 1)
    };
    let n: u128 = v * 10;
    let q: u128 = n / scale;
    let rem: u128 = n % scale;
    let tenths: u128 = if rem * 2 > scale || (rem * 2 == scale && q % 2 == 1) {
        q + 1
    } else {
        q
    };
    assert(tenths <= 0x1_0000_0000_0000) by (nonlinear_arith)
        requires
            q == n / scale,
            n <= 0x14_0000_0000_0000_0000,
            scale >= 1,
            tenths <= q + 1,
            v >= 0x4000_0000 ==> scale == 0x4000_0000,
            v < 0x4000_0000 ==> n < 0x2_8000_0000,
    {
    }
    let whole: u64 = (tenths / 10) as u64;
    let frac: u64 = (tenths % 10) as u64;
    let mut out = decimal_string(whole);
    out.append(".");
    push_char(&mut out, digit(frac));
    out.append(" ");
    if unit == 0 {
        out.append("B");
    } else if unit == 1 {
        out.append("KB");
    } else if unit == 2 {
        out.append("MB");
    } else {
        out.append("GB");
    }
    assert(out@ =~= decimal(tenths as nat / 10) + "."@ + seq![digit_char(tenths as nat % 10)] + " "@
        + unit_name(unit as nat));
    out
}

} // verus!
