//! What the desktop front end is shown of the shares, and the links it hands
//! out.

use vstd::prelude::*;
use crate::share::Share;
use crate::share::ShareRegistry;
use crate::text::string_opt;

verus! {

/// View of a share sent to the frontend.
#[derive(Clone, Debug)]
pub struct ShareInfo {
    pub token: String,
    pub name: String,
    pub size: u64,
    pub has_password: bool,
    pub download_count: u64,
    pub link: Option<String>,
}

/// The public link of a token under a tunnel base URL, if one is known:
/// `{base}/d/{token}`.
pub open spec fn link_of(base: Option<Seq<char>>, token: Seq<char>) -> Option<Seq<char>> {
    match base {
        Some(b) => Some(b + "/d/"@ + token),
        None => None,
    }
}

/// Builds the public link for a token, if the tunnel base URL is known.
pub fn build_link(base: &Option<String>, token: &str) -> (r: Option<String>)
    ensures
        string_opt(r) == link_of(string_opt(*base), token@),
{
    match base {
        Some(b) => {
            let mut out = b.clone();
            out.append("/d/");
            out.append(token);
            Some(out)
        },
        None => None,
    }
}

/// Whether `info` is what the front end is shown of `share` under `base`.
pub open spec fn describes(info: ShareInfo, base: Option<Seq<char>>, share: Share) -> bool {
    &&& info.token@ == share.token@
    &&& info.name@ == share.name@
    &&& info.size == share.size
    &&& info.has_password == share.password_hash is Some
    &&& info.download_count == share.download_count
    &&& string_opt(info.link) == link_of(base, share.token@)
}

/// The front end's view of one share.
fn share_info(base: &Option<String>, share: &Share) -> (r: ShareInfo)
    ensures
        describes(r, string_opt(*base), *share),
{
    ShareInfo {
        token: share.token.clone(),
        name: share.name.clone(),
        size: share.size,
        has_password: share.password_hash.is_some(),
        download_count: share.download_count,
        link: build_link(base, share.token.as_str()),
    }
}

/// The front end's view of every share in the registry, each once, in some
/// order, with links under `base` (the tunnel's public URL, if it is up).
pub fn share_infos(base: &Option<String>, registry: &ShareRegistry) -> (r: Vec<ShareInfo>)
    requires
        registry.wf(),
    ensures
        r@.len() == registry@.len(),
        exists|tokens: Seq<Seq<char>>|
            {
                &&& tokens.no_duplicates()
                &&& tokens.to_set() == registry@.dom()
                &&& tokens.len() == r@.len()
                &&& forall|i: int|
                    0 <= i < r@.len() ==> describes(
                        #[trigger] r@[i],
                        string_opt(*base),
                        registry@[tokens[i]],
                    )
            },
{
    let shares = registry.list();
    let ghost tokens = choose|tokens: Seq<Seq<char>>|
        {
            &&& tokens.no_duplicates()
            &&& tokens.to_set() == registry@.dom()
            &&& shares@ == tokens.map_values(|t: Seq<char>| registry@[t])
        };
    let mut out: Vec<ShareInfo> = Vec::new();
    let mut i: usize = 0;
    while i < shares.len()
        invariant
            i <= shares@.len(),
            shares@ == tokens.map_values(|t: Seq<char>| registry@[t]),
            out@.len() == i,
            forall|j: int|
                0 <= j < i ==> describes(#[trigger] out@[j], string_opt(*base), registry@[tokens[j]]),
        decreases shares@.len() - i,
    {
        let info = share_info(base, &shares[i]);
        out.push(info);
        i = i + 1;
    }
    out
}

/// The password a new share is protected with: none when the field was left
/// empty.
pub fn effective_password(password: Option<String>) -> (r: Option<String>)
    ensures
        r == (match password {
            Some(p) => if p@.len() == 0 {
                None
            } else {
                Some(p)
            },
            None => None,
        }),
{
    match password {
        Some(p) => if p.as_str().is_empty() {
            None
        } else {
            Some(p)
        },
        None => None,
    }
}


/// What has happened so far while a share is being created from the front
/// end: the share was registered (with the tunnel found running or not), or
/// the tunnel that was needed was started, or failed to start.
#[derive(Clone, Copy, Debug, PartialEq, Eq)]
pub enum CreateEvent {
    Registered { tunnel_running: bool },
    TunnelStarted,
    TunnelFailed,
}

/// What the create-share command does next.
#[derive(Clone, Copy, Debug, PartialEq, Eq)]
pub enum CreateAction {
    /// Start the tunnel (it is not running).
    StartTunnel,
    /// Answer with the list of shares.
    Respond,
    /// Revoke the share just registered (remove its token from the
    /// registry, which restores the registry as it was: see
    /// `laws::roll_back_restores_registry`) and answer with the tunnel's
    /// error, so that it does not linger un-revokable.
    RollBack,
}

/// One decision of the create-share command: the tunnel is started lazily
/// when a share is registered and it is not running, and a share whose
/// tunnel could not be started is rolled back.
pub fn create_share_step(event: CreateEvent) -> (r: CreateAction)
    ensures
        r == match event {
            CreateEvent::Registered { tunnel_running } => if tunnel_running {
                CreateAction::Respond
            } else {
                CreateAction::StartTunnel
            },
            CreateEvent::TunnelStarted => CreateAction::Respond,
            CreateEvent::TunnelFailed => CreateAction::RollBack,
        },
{
    match event {
        CreateEvent::Registered { tunnel_running } => if tunnel_running {
            CreateAction::Respond
        } else {
            CreateAction::StartTunnel
        },
        CreateEvent::TunnelStarted => CreateAction::Respond,
        CreateEvent::TunnelFailed => CreateAction::RollBack,
    }
}

/// Whether the tunnel is stopped after a share is revoked: when no share
/// remains.
pub fn stop_tunnel_after_revoke(active_count: usize) -> (r: bool)
    ensures
        r == (active_count == 0),
{
    active_count == 0
}

} // verus!
