//! Where the encrypted SSH archive lives, and whether a `.ssh` directory
//! already holds keys.
use vstd::prelude::*;
use crate::rebuild::owned;
use crate::text::{chars_of, eq_str, has_prefix, join_path, path_join, extension, file_extension, starts_with_str};

verus! {

/// The archive inside a flake directory.
pub open spec fn flake_archive(flake: Seq<char>) -> Seq<char> {
    join_path(flake, "secrets/ssh.tar.age"@)
}

/// The path of the SSH archive inside a flake directory.
pub fn flake_ssh_archive(flake_dir: &str) -> (r: String)
    ensures
        r@ == flake_archive(flake_dir@),
{
    proof {
        reveal_strlit("secrets/ssh.tar.age");
    }
    path_join(flake_dir, "secrets/ssh.tar.age")
}

/// The SSH archive to use: the flake's when it exists there, else the
/// OrbitOS one when it exists, else the /etc/nixos one when it exists, else
/// the OrbitOS one when its secrets directory exists, else the /etc/nixos one.
pub open spec fn ssh_archive_choice(
    flake_dir: Option<Seq<char>>,
    flake_archive_exists: bool,
    orbitos_archive_exists: bool,
    nixos_archive_exists: bool,
    orbitos_secrets_is_dir: bool,
) -> Seq<char> {
    if flake_dir is Some && flake_archive_exists {
        flake_archive(flake_dir.unwrap())
    } else if orbitos_archive_exists {
        "/orbitos/secrets/ssh.tar.age"@
    } else if nixos_archive_exists {
        "/etc/nixos/secrets/ssh.tar.age"@
    } else if orbitos_secrets_is_dir {
        "/orbitos/secrets/ssh.tar.age"@
    } else {
        "/etc/nixos/secrets/ssh.tar.age"@
    }
}

/// The SSH archive to use, given which of the candidate places exist.
pub fn default_ssh_archive(
    flake_dir: Option<&str>,
    flake_archive_exists: bool,
    orbitos_archive_exists: bool,
    nixos_archive_exists: bool,
    orbitos_secrets_is_dir: bool,
) -> (r: String)
    ensures
        r@ == ssh_archive_choice(
            crate::shell::opt_str(flake_dir),
            flake_archive_exists,
            orbitos_archive_exists,
            nixos_archive_exists,
            orbitos_secrets_is_dir,
        ),
{
    if let Some(f) = flake_dir {
        if flake_archive_exists {
            return flake_ssh_archive(f);
        }
    }
    if orbitos_archive_exists {
        owned("/orbitos/secrets/ssh.tar.age")
    } else if nixos_archive_exists {
        owned("/etc/nixos/secrets/ssh.tar.age")
    } else if orbitos_secrets_is_dir {
        owned("/orbitos/secrets/ssh.tar.age")
    } else {
        owned("/etc/nixos/secrets/ssh.tar.age")
    }
}

/// The usual private key file names.
pub fn ssh_key_candidates() -> (r: Vec<String>)
    ensures
        crate::rebuild::texts(r@) == seq!["id_ed25519"@, "id_rsa"@, "id_ecdsa"@, "id_dsa"@, "m_uvex"@],
{
    let mut v: Vec<String> = Vec::new();
    v.push(owned("id_ed25519"));
    v.push(owned("id_rsa"));
    v.push(owned("id_ecdsa"));
    v.push(owned("id_dsa"));
    v.push(owned("m_uvex"));
    assert(crate::rebuild::texts(v@) =~= seq!["id_ed25519"@, "id_rsa"@, "id_ecdsa"@, "id_dsa"@, "m_uvex"@]);
    v
}

/// Whether a file in `.ssh` counts as a private key: not a `.pub` file, and
/// not `known_hosts*`, `config*` or `authorized_keys*`.
pub open spec fn is_private_key_name(name: Seq<char>) -> bool {
    extension(name) != Some("pub"@) && !has_prefix(name, "known_hosts"@) && !has_prefix(name, "config"@)
        && !has_prefix(name, "authorized_keys"@)
}

/// Whether a file in `.ssh` counts as a private key.
pub fn is_private_key_file(name: &str) -> (r: bool)
    ensures
        r == is_private_key_name(name@),
{
    let n = chars_of(name);
    let w = n.as_slice();
    let is_pub = match file_extension(w) {
        Some(e) => eq_str(e.as_slice(), "pub"),
        None => false,
    };
    !is_pub && !starts_with_str(w, "known_hosts") && !starts_with_str(w, "config") && !starts_with_str(
        w,
        "authorized_keys",
    )
}

/// Whether a `.ssh` directory holds keys: one of the usual key files is
/// there, or some regular file (by `file_names`) counts as a private key.
pub fn has_ssh_keys_in(candidate_present: bool, file_names: &Vec<String>) -> (r: bool)
    ensures
        r == (candidate_present || exists|i: int|
            0 <= i < file_names@.len() && is_private_key_name(#[trigger] file_names@[i]@)),
{
    if candidate_present {
        return true;
    }
    let mut i: usize = 0;
    while i < file_names.len()
        invariant
            i <= file_names.len(),
            forall|j: int| 0 <= j < i ==> !is_private_key_name(#[trigger] file_names@[j]@),
        decreases file_names.len() - i,
    {
        if is_private_key_file(file_names[i].as_str()) {
            assert(is_private_key_name(file_names@[i as int]@));
            return true;
        }
        i = i + 1;
    }
    false
}

} // verus!
