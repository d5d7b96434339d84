//! Recognising the public URL that `cloudflared` prints, the arguments it is
//! started with, and the decisions taken while its output is scanned.

use vstd::prelude::*;
use crate::text::chars_of;
use crate::text::contains_exec;
use crate::text::contains_seq;
use crate::text::occurs_at;
use crate::text::occurs_at_exec;
use crate::server::char_is_control;
use crate::server::is_control;
use crate::text::push_char;
use crate::text::decimal;
use crate::text::decimal_string;

verus! {

/// Whether a character has the Unicode `White_Space` property, as
/// `char::is_whitespace` answers.
pub open spec fn is_whitespace(c: char) -> bool {
    let v = c as u32;
    (0x9 <= v && v <= 0xd) || v == 0x20 || v == 0x85 || v == 0xa0 || v == 0x1680 || (0x2000 <= v
        && v <= 0x200a) || v == 0x2028 || v == 0x2029 || v == 0x202f || v == 0x205f || v == 0x3000
}

/// `is_whitespace` for executable code.
pub fn char_is_whitespace(c: char) -> (r: bool)
    ensures
        r == is_whitespace(c),
{
    let v = c as u32;
    (0x9 <= v && v <= 0xd) || v == 0x20 || v == 0x85 || v == 0xa0 || v == 0x1680 || (0x2000 <= v
        && v <= 0x200a) || v == 0x2028 || v == 0x2029 || v == 0x202f || v == 0x205f || v == 0x3000
}

/// Whether a character ends a URL in `cloudflared` output: whitespace or a
/// control character.
pub open spec fn ends_url(c: char) -> bool {
    is_whitespace(c) || is_control(c)
}

/// The length of the longest prefix of `s` holding no character that ends a
/// URL.
pub open spec fn url_len(s: Seq<char>) -> nat
    decreases s.len(),
{
    if s.len() == 0 {
        0
    } else if ends_url(s[0]) {
        0
    } else {
        1 + url_len(s.drop_first())
    }
}

/// The URL that starts at position `i` of a line: the text from there up to
/// the next whitespace or control character, or the end of the line.
pub open spec fn url_at(line: Seq<char>, i: int) -> Seq<char> {
    let rest = line.skip(i);
    rest.take(url_len(rest) as int)
}

/// Whether a tunnel URL starts at position `i` of a line: an `https://` URL
/// there that mentions `trycloudflare.com`.
pub open spec fn is_tunnel_url_at(line: Seq<char>, i: int) -> bool {
    occurs_at(line, "https://"@, i) && contains_seq(url_at(line, i), "trycloudflare.com"@)
}

/// The first tunnel URL that starts at or after position `from`.
pub open spec fn tunnel_url_from(line: Seq<char>, from: nat) -> Option<Seq<char>>
    decreases line.len() - from,
{
    if from >= line.len() {
        None
    } else if is_tunnel_url_at(line, from as int) {
        Some(url_at(line, from as int))
    } else {
        tunnel_url_from(line, from + 1)
    }
}

/// The trycloudflare.com URL a line of `cloudflared` output announces: of the
/// `https://` URLs in the line (each ended by whitespace, a control
/// character or the end of the line), the first that mentions
/// `trycloudflare.com`; `None` when none does.
pub open spec fn tunnel_url_of(line: Seq<char>) -> Option<Seq<char>> {
    tunnel_url_from(line, 0)
}

/// What `url_len` counts, element by element.
pub proof fn lemma_url_len(s: Seq<char>)
    ensures
        url_len(s) <= s.len(),
        forall|i: int| 0 <= i < url_len(s) ==> !ends_url(#[trigger] s[i]),
        url_len(s) < s.len() ==> ends_url(s[url_len(s) as int]),
    decreases s.len(),
{
    if s.len() > 0 && !ends_url(s[0]) {
        lemma_url_len(s.drop_first());
        assert forall|i: int| 0 <= i < url_len(s) implies !ends_url(#[trigger] s[i]) by {
            if i > 0 {
                assert(s[i] == s.drop_first()[i - 1]);
            }
        }
    }
}

/// The URL starting at position `start` of `chars`, as characters and as a
/// string.
fn url_from(chars: &Vec<char>, start: usize) -> (r: (Vec<char>, String))
    requires
        start <= chars@.len(),
    ensures
        r.0@ == url_at(chars@, start as int),
        r.1@ == r.0@,
{
    let ghost rest = chars@.skip(start as int);
    proof {
        lemma_url_len(rest);
    }
    let mut url_chars: Vec<char> = Vec::new();
    let mut url = String::new();
    let mut j: usize = start;
    while j < chars.len() && !char_is_whitespace(chars[j]) && !char_is_control(chars[j])
        invariant
            start <= j <= chars@.len(),
            rest == chars@.skip(start as int),
            url_len(rest) <= rest.len(),
            forall|i: int| 0 <= i < url_len(rest) ==> !ends_url(#[trigger] rest[i]),
            url_len(rest) < rest.len() ==> ends_url(rest[url_len(rest) as int]),
            j - start <= url_len(rest),
            url_chars@ == rest.take(j - start),
            url@ == url_chars@,
        decreases chars@.len() - j,
    {
        let c = chars[j];
        assert(rest[j - start] == c);
        url_chars.push(c);
        push_char(&mut url, c);
        assert(rest.take(j + 1 - start) =~= rest.take(j - start).push(c));
        j = j + 1;
    }
    if j < chars.len() {
        assert(rest[j - start] == chars@[j as int]);
    }
    assert(j - start == url_len(rest));
    (url_chars, url)
}

/// Extracts a trycloudflare.com HTTPS URL from a line of cloudflared output.
/// Returns None if the line contains no such URL.
pub fn parse_tunnel_url(line: &str) -> (r: Option<String>)
    ensures
        match r {
            Some(u) => tunnel_url_of(line@) == Some(u@),
            None => tunnel_url_of(line@) is None,
        },
{
    let chars = chars_of(line);
    let scheme = chars_of("https://");
    let host = chars_of("trycloudflare.com");
    let mut i: usize = 0;
    while i < chars.len()
        invariant
            i <= chars@.len(),
            chars@ == line@,
            scheme@ == "https://"@,
            host@ == "trycloudflare.com"@,
            tunnel_url_from(chars@, 0) == tunnel_url_from(chars@, i as nat),
        decreases chars@.len() - i,
    {
        if occurs_at_exec(&chars, &scheme, i) {
            let (url_chars, url) = url_from(&chars, i);
            if contains_exec(&url_chars, &host) {
                assert(is_tunnel_url_at(chars@, i as int));
                assert(tunnel_url_from(chars@, i as nat) == Some(url_at(chars@, i as int)));
                return Some(url);
            }
        }
        i = i + 1;
    }
    None
}

/// The arguments `cloudflared` is started with: `extra_args` when there are
/// any (they replace the standard ones entirely), else
/// `tunnel --url http://127.0.0.1:{port}`.
pub open spec fn tunnel_args_of(extra_args: Seq<Seq<char>>, port: u16) -> Seq<Seq<char>> {
    if extra_args.len() == 0 {
        seq!["tunnel"@, "--url"@, "http://127.0.0.1:"@ + decimal(port as nat)]
    } else {
        extra_args
    }
}

/// The characters of each string.
pub open spec fn strings_view(v: Seq<String>) -> Seq<Seq<char>> {
    v.map_values(|s: String| s@)
}

/// The command-line arguments for a tunnel to the local server on `port`.
pub fn tunnel_args(extra_args: &Vec<String>, port: u16) -> (r: Vec<String>)
    ensures
        strings_view(r@) == tunnel_args_of(strings_view(extra_args@), port),
{
    let mut out: Vec<String> = Vec::new();
    if extra_args.len() == 0 {
        let mut url = String::new();
        url.append("http://127.0.0.1:");
        let p = decimal_string(port as u64);
        url.append(p.as_str());
        out.push(String::from_str("tunnel"));
        out.push(String::from_str("--url"));
        out.push(url);
        assert(strings_view(out@) =~= tunnel_args_of(strings_view(extra_args@), port));
    } else {
        let mut i: usize = 0;
        while i < extra_args.len()
            invariant
                i <= extra_args@.len(),
                out@.len() == i,
                strings_view(out@) == strings_view(extra_args@).take(i as int),
            decreases extra_args@.len() - i,
        {
            out.push(extra_args[i].clone());
            assert(out@[i as int] == extra_args@[i as int]);
            assert(strings_view(out@) =~= strings_view(extra_args@).take(i + 1));
            i = i + 1;
        }
        assert(strings_view(extra_args@).take(extra_args@.len() as int) =~= strings_view(
            extra_args@,
        ));
    }
    out
}

/// One of the two output streams of `cloudflared`.
#[derive(Clone, Copy, Debug, PartialEq, Eq)]
pub enum Stream {
    Stdout,
    Stderr,
}

/// Which output streams have reached their end while scanning for the URL.
#[derive(Clone, Copy, Debug, PartialEq, Eq)]
pub struct ScanState {
    pub out_done: bool,
    pub err_done: bool,
}

/// What happened while waiting on the output of `cloudflared`.
#[derive(Debug)]
pub enum ScanEvent {
    /// A line was read from a stream.
    Line(String),
    /// A stream reached its end.
    Closed(Stream),
    /// Reading a stream failed.
    Failed,
    /// The time allowed for the URL ran out.
    Deadline,
}

/// What to do next while scanning for the URL.
#[derive(Debug)]
pub enum ScanAction {
    /// Keep waiting, in the given state.
    Continue(ScanState),
    /// The URL was found.
    Found(String),
    /// Stop: no URL will come.
    GiveUp,
}

/// The state a scan starts in: both streams open.
pub fn scan_start() -> (r: ScanState)
    ensures
        !r.out_done && !r.err_done,
{
    ScanState { out_done: false, err_done: false }
}

/// One step of the scan for the tunnel URL: a line that announces the URL
/// ends the scan with it; the end of a stream is noted, and the scan gives
/// up once both have ended; a read error or the deadline ends the scan
/// without a URL.
pub fn scan_step(state: ScanState, event: ScanEvent) -> (r: ScanAction)
    ensures
        match event {
            ScanEvent::Line(l) => match tunnel_url_of(l@) {
                Some(u) => r matches ScanAction::Found(f) && f@ == u,
                None => r == ScanAction::Continue(state),
            },
            ScanEvent::Closed(which) => {
                let next = match which {
                    Stream::Stdout => (ScanState { out_done: true, ..state }),
                    Stream::Stderr => (ScanState { err_done: true, ..state }),
                };
                if next.out_done && next.err_done {
                    r == ScanAction::GiveUp
                } else {
                    r == ScanAction::Continue(next)
                }
            },
            ScanEvent::Failed => r == ScanAction::GiveUp,
            ScanEvent::Deadline => r == ScanAction::GiveUp,
        },
{
    match event {
        ScanEvent::Line(l) => match parse_tunnel_url(l.as_str()) {
            Some(u) => ScanAction::Found(u),
            None => ScanAction::Continue(state),
        },
        ScanEvent::Closed(which) => {
            let next = match which {
                Stream::Stdout => ScanState { out_done: true, err_done: state.err_done },
                Stream::Stderr => ScanState { out_done: state.out_done, err_done: true },
            };
            if next.out_done && next.err_done {
                ScanAction::GiveUp
            } else {
                ScanAction::Continue(next)
            }
        },
        ScanEvent::Failed => ScanAction::GiveUp,
        ScanEvent::Deadline => ScanAction::GiveUp,
    }
}

/// What is known of the `cloudflared` child when the tunnel is checked.
#[derive(Clone, Copy, Debug, PartialEq, Eq)]
pub enum ChildStatus {
    /// No child is held (never started, or stopped).
    Absent,
    /// A child is held and has exited on its own.
    Exited,
    /// A child is held and is still running.
    Alive,
}

/// The outcome of checking whether the tunnel runs.
#[derive(Clone, Copy, Debug, PartialEq, Eq)]
pub enum TunnelCheck {
    /// The tunnel runs; nothing changes.
    Running,
    /// No tunnel is held; nothing changes.
    NotRunning,
    /// The child exited on its own: forget it and its public URL, so that
    /// the next share restarts the tunnel rather than trust a stale handle.
    Reap,
}

/// Whether the tunnel runs, and what to forget when its process has exited.
pub fn check_tunnel(status: ChildStatus) -> (r: TunnelCheck)
    ensures
        r == match status {
            ChildStatus::Absent => TunnelCheck::NotRunning,
            ChildStatus::Exited => TunnelCheck::Reap,
            ChildStatus::Alive => TunnelCheck::Running,
        },
{
    match status {
        ChildStatus::Absent => TunnelCheck::NotRunning,
        ChildStatus::Exited => TunnelCheck::Reap,
        ChildStatus::Alive => TunnelCheck::Running,
    }
}

} // verus!
