//! Storing and restoring encrypted secrets: what a secrets command asks for,
//! and the choices it makes on the way.
use vstd::prelude::*;
use crate::cli::SecretsCommands;
use crate::rebuild::{owned, opt_text, texts};
use crate::text::{chars_of, eq_str, extension, file_extension};

verus! {

/// Whether secrets are stored into an archive or restored from one.
#[derive(Debug, Clone, Copy, PartialEq, Eq, Structural)]
pub enum SecretsAction {
    Store,
    Restore,
}

/// A secrets command with its defaults filled in, and the steps that its
/// secret type calls for.
#[derive(Debug)]
pub struct SecretsRequest {
    pub action: SecretsAction,
    pub secret_type: String,
    pub encryption: String,
    pub archive: Option<String>,
    pub steps: Vec<SecretStep>,
}

/// The text of an optional string, or `default` when missing.
pub open spec fn text_or(o: Option<String>, default: Seq<char>) -> Seq<char> {
    match o {
        Some(s) => s@,
        None => default,
    }
}

/// The secret type of a command: the one given, else `ssh`.
pub open spec fn command_secret_type(cmd: SecretsCommands) -> Seq<char> {
    match cmd {
        SecretsCommands::Store { secret_type, .. } => text_or(secret_type, "ssh"@),
        SecretsCommands::Restore { secret_type, .. } => text_or(secret_type, "ssh"@),
    }
}

/// Whether `r` is the request that a secrets command makes: its action, the
/// secret type (default `ssh`), the encryption method (default `pass`) and,
/// for a restore, the archive given.
pub open spec fn secrets_request_of(cmd: SecretsCommands, r: SecretsRequest) -> bool {
    match cmd {
        SecretsCommands::Store { secret_type, encryption } => {
            &&& r.action == SecretsAction::Store
            &&& r.secret_type@ == text_or(secret_type, "ssh"@)
            &&& r.encryption@ == text_or(encryption, "pass"@)
            &&& r.archive is None
        },
        SecretsCommands::Restore { secret_type, encryption, archive } => {
            &&& r.action == SecretsAction::Restore
            &&& r.secret_type@ == text_or(secret_type, "ssh"@)
            &&& r.encryption@ == text_or(encryption, "pass"@)
            &&& opt_text(r.archive) == opt_text(archive)
        },
    }
}

/// What a secrets command comes to: for a known secret type, the request
/// with the steps of that type (`ssh`: the SSH archive; `wifi`: only a
/// notice; `all`: both, in that order); for an unknown type, the message
/// that refuses it.
pub open spec fn secrets_outcome(cmd: SecretsCommands, r: Result<SecretsRequest, String>) -> bool {
    match secret_steps_of(secret_kind_of(command_secret_type(cmd))) {
        Some(steps) => r matches Ok(req) && secrets_request_of(cmd, req) && req.steps@ == steps,
        None => r matches Err(m) && m@ == unknown_secret_text(command_secret_type(cmd)),
    }
}

/// Resolves a secrets command: the secret type defaults to `ssh` and the
/// encryption to `pass`; an unknown secret type is refused.
pub fn handle_secrets_command(cmd: SecretsCommands) -> (r: Result<SecretsRequest, String>)
    ensures
        secrets_outcome(cmd, r),
{
    let (action, secret_type, encryption, archive) = match cmd {
        SecretsCommands::Store { secret_type, encryption } => (
            SecretsAction::Store,
            secret_type,
            encryption,
            None,
        ),
        SecretsCommands::Restore { secret_type, encryption, archive } => (
            SecretsAction::Restore,
            secret_type,
            encryption,
            archive,
        ),
    };
    let secret_type = match secret_type {
        Some(s) => s,
        None => owned("ssh"),
    };
    let encryption = match encryption {
        Some(e) => e,
        None => owned("pass"),
    };
    match secret_steps(secret_type.as_str()) {
        Ok(steps) => Ok(SecretsRequest { action, secret_type, encryption, archive, steps }),
        Err(m) => Err(m),
    }
}

/// The kinds of secret: the SSH directory, WiFi credentials, both, or a
/// type name that names none.
#[derive(Debug, Clone, Copy, PartialEq, Eq, Structural)]
pub enum SecretKind {
    Ssh,
    Wifi,
    All,
    Unknown,
}

/// The kind of secret a type name names: `ssh`, `wifi` or `all`.
pub open spec fn secret_kind_of(t: Seq<char>) -> SecretKind {
    if t == "ssh"@ {
        SecretKind::Ssh
    } else if t == "wifi"@ {
        SecretKind::Wifi
    } else if t == "all"@ {
        SecretKind::All
    } else {
        SecretKind::Unknown
    }
}

/// The kind of secret a type name names.
pub fn secret_kind(t: &str) -> (r: SecretKind)
    ensures
        r == secret_kind_of(t@),
{
    let c = chars_of(t);
    if eq_str(c.as_slice(), "ssh") {
        SecretKind::Ssh
    } else if eq_str(c.as_slice(), "wifi") {
        SecretKind::Wifi
    } else if eq_str(c.as_slice(), "all") {
        SecretKind::All
    } else {
        SecretKind::Unknown
    }
}

/// One step of storing or restoring secrets.
#[derive(Debug, Clone, Copy, PartialEq, Eq, Structural)]
pub enum SecretStep {
    /// Store or restore the SSH directory through the encrypted archive.
    Ssh,
    /// Report that WiFi secrets are not supported yet; nothing is read,
    /// written or run.
    WifiNotice,
}

/// The steps for a kind of secret, in order; none for an unknown type,
/// which is refused.
pub open spec fn secret_steps_of(kind: SecretKind) -> Option<Seq<SecretStep>> {
    match kind {
        SecretKind::Ssh => Some(seq![SecretStep::Ssh]),
        SecretKind::Wifi => Some(seq![SecretStep::WifiNotice]),
        SecretKind::All => Some(seq![SecretStep::Ssh, SecretStep::WifiNotice]),
        SecretKind::Unknown => None,
    }
}

/// The message that refuses an unknown secret type.
pub open spec fn unknown_secret_text(t: Seq<char>) -> Seq<char> {
    "Unknown secret type '"@ + t + "'. Available: ssh, wifi, all"@
}

/// What a secrets request does for its type: the steps to take in order
/// (the same for storing and restoring), or, for an unknown type, the
/// message that refuses it.
pub fn secret_steps(secret_type: &str) -> (r: Result<Vec<SecretStep>, String>)
    ensures
        match secret_steps_of(secret_kind_of(secret_type@)) {
            Some(steps) => r matches Ok(v) && v@ == steps,
            None => r matches Err(m) && m@ == unknown_secret_text(secret_type@),
        },
{
    let mut v: Vec<SecretStep> = Vec::new();
    match secret_kind(secret_type) {
        SecretKind::Ssh => {
            v.push(SecretStep::Ssh);
        },
        SecretKind::Wifi => {
            v.push(SecretStep::WifiNotice);
        },
        SecretKind::All => {
            v.push(SecretStep::Ssh);
            v.push(SecretStep::WifiNotice);
        },
        SecretKind::Unknown => {
            let mut m = chars_of("Unknown secret type '");
            let mut t = chars_of(secret_type);
            let mut tail = chars_of("'. Available: ssh, wifi, all");
            m.append(&mut t);
            m.append(&mut tail);
            return Err(crate::text::string_of(m.as_slice()));
        },
    }
    assert(v@ =~= secret_steps_of(secret_kind_of(secret_type@)).unwrap());
    Ok(v)
}

/// How `age` encrypts an archive: for the ssh method, to the public key when
/// it exists; otherwise, and for the pass method, with a passphrase.
pub open spec fn age_encrypt_argv(encryption: Seq<char>, pub_key: Seq<char>, pub_key_exists: bool) -> Seq<Seq<char>> {
    if encryption == "ssh"@ && pub_key_exists {
        seq!["-R"@, pub_key]
    } else {
        seq!["-p"@]
    }
}

/// The `age` arguments that choose how an archive is encrypted.
pub fn age_encrypt_args(encryption: &str, pub_key: &str, pub_key_exists: bool) -> (r: Vec<String>)
    ensures
        texts(r@) == age_encrypt_argv(encryption@, pub_key@, pub_key_exists),
{
    let e = chars_of(encryption);
    let mut args: Vec<String> = Vec::new();
    if eq_str(e.as_slice(), "ssh") && pub_key_exists {
        args.push(owned("-R"));
        args.push(owned(pub_key));
    } else {
        args.push(owned("-p"));
    }
    assert(texts(args@) =~= age_encrypt_argv(encryption@, pub_key@, pub_key_exists));
    args
}

/// Whether SSH encryption was asked for but there is no public key to
/// encrypt to, so that a passphrase is used instead.
pub fn falls_back_to_passphrase(encryption: &str, pub_key_exists: bool) -> (r: bool)
    ensures
        r == (encryption@ == "ssh"@ && !pub_key_exists),
{
    let e = chars_of(encryption);
    eq_str(e.as_slice(), "ssh") && !pub_key_exists
}

/// The permissions of a restored key file: 0644 for a `.pub` file, else 0600.
pub open spec fn key_mode_of(name: Seq<char>) -> u32 {
    if extension(name) == Some("pub"@) {
        0o644
    } else {
        0o600
    }
}

/// The permissions of a restored key file, by its name.
pub fn key_file_mode(file_name: &str) -> (r: u32)
    ensures
        r == key_mode_of(file_name@),
{
    let n = chars_of(file_name);
    match file_extension(n.as_slice()) {
        Some(e) => if eq_str(e.as_slice(), "pub") {
            0o644
        } else {
            0o600
        },
        None => 0o600,
    }
}

/// The mode of the SSH directory after a restore: only its owner may read,
/// write or enter it.
pub fn ssh_dir_mode() -> (r: u32)
    ensures
        r == 0o700,
{
    0o700
}

/// The mode of an encrypted secrets archive after it is written: readable by
/// all, writable by its owner.
pub fn archive_mode() -> (r: u32)
    ensures
        r == 0o644,
{
    0o644
}

} // verus!
