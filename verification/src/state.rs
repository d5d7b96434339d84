//! Registering a new share: token, name, password hash, registry entry.

use vstd::prelude::*;
use vstd::utf8::encode_utf8;
use std::path::PathBuf;
use crate::password::argon2_accepts;
use crate::password::hash_password;
use crate::share::Share;
use crate::share::ShareRegistry;
use crate::share::ShareSource;
use crate::token::generate_token;
use crate::token::is_lower_hex_digit;

verus! {

/// The name a share is shown under: the file's name, or `file` when the path
/// has none.
pub open spec fn display_name(file_name: Option<Seq<char>>) -> Seq<char> {
    match file_name {
        Some(n) => n,
        None => "file"@,
    }
}

/// Creates a share for the file at `path`, of the given name and size, protected by
/// `password` if one is given, registers it under a fresh random token and
/// returns the token.
pub fn add_share(
    registry: &mut ShareRegistry,
    path: PathBuf,
    file_name: Option<String>,
    size: u64,
    password: Option<String>,
) -> (token: String)
    requires
        old(registry).wf(),
        password matches Some(p) ==> encode_utf8(p@).len() <= 0xFFFF_FFFF,
    ensures
        final(registry).wf(),
        token@.len() == 32,
        forall|i: int| 0 <= i < token@.len() ==> is_lower_hex_digit(#[trigger] token@[i]),
        final(registry)@.contains_key(token@),
        final(registry)@ == old(registry)@.insert(token@, final(registry)@[token@]),
        ({
            let s = final(registry)@[token@];
            &&& s.token@ == token@
            &&& s.source == ShareSource::Path(path)
            &&& s.name@ == display_name(crate::text::string_opt(file_name))
            &&& (file_name matches Some(n) ==> s.name@ == n@)
            &&& (file_name is None ==> s.name@ == "file"@)
            &&& s.size == size
            &&& s.download_count == 0
            &&& (s.password_hash is Some <==> password is Some)
            &&& (password matches Some(p) ==> argon2_accepts(p@, s.password_hash->0@))
        }),
{
    let name = match file_name {
        Some(n) => n,
        None => String::from_str("file"),
    };
    let token = generate_token();
    let password_hash = match password {
        Some(p) => Some(hash_password(p.as_str())),
        None => None,
    };
    let share = Share::new(token.clone(), path, name, size, password_hash);
    registry.insert(share);
    token
}

} // verus!
