//! Preparing a configuration for installation, and syncing the
//! configuration repository.
use vstd::prelude::*;
use crate::rebuild::{owned, texts};
use crate::text::{chars_of, eq_str, has_prefix, join_path, path_join, starts_with_str, trim, trim_str};

verus! {

//=========================================#
//            INSTALL                      #
//=========================================#

/// Whether a configuration is given as a repository to clone.
pub open spec fn is_remote(cfg: Seq<char>) -> bool {
    has_prefix(cfg, "http://"@) || has_prefix(cfg, "https://"@) || has_prefix(cfg, "git@"@)
}

/// Whether a configuration is given as a repository to clone.
pub fn is_remote_config(cfg: &str) -> (r: bool)
    ensures
        r == is_remote(cfg@),
{
    let c = chars_of(cfg);
    starts_with_str(c.as_slice(), "http://") || starts_with_str(c.as_slice(), "https://")
        || starts_with_str(c.as_slice(), "git@")
}

/// Whether a directory's name marks it as a configuration checkout.
pub open spec fn is_config_name(name: Seq<char>) -> bool {
    name == "orbitos"@ || name == "orbit-config"@ || name == "NixOS"@
}

/// Whether a directory's name marks it as a configuration checkout.
pub fn is_config_dir_name(name: &str) -> (r: bool)
    ensures
        r == is_config_name(name@),
{
    let c = chars_of(name);
    eq_str(c.as_slice(), "orbitos") || eq_str(c.as_slice(), "orbit-config") || eq_str(
        c.as_slice(),
        "NixOS",
    )
}

/// Where a configuration is cloned: `/orbitos`, or `~/.cache/orbitos` when
/// `/orbitos` already exists.
pub open spec fn clone_destination_of(orbitos_exists: bool, home: Seq<char>) -> Seq<char> {
    if orbitos_exists {
        join_path(home, ".cache/orbitos"@)
    } else {
        "/orbitos"@
    }
}

/// Where a configuration is cloned.
pub fn clone_destination(orbitos_exists: bool, home: &str) -> (r: String)
    ensures
        r@ == clone_destination_of(orbitos_exists, home@),
{
    if orbitos_exists {
        proof {
            reveal_strlit(".cache/orbitos");
        }
        path_join(home, ".cache/orbitos")
    } else {
        owned("/orbitos")
    }
}

/// The command that rebuilds from the prepared configuration with updated inputs.
pub fn install_rebuild_command(config_dir: &str) -> (r: Vec<String>)
    ensures
        texts(r@) == seq!["orbit"@, "rebuild"@, "-u"@, "-f"@, config_dir@],
{
    let mut v: Vec<String> = Vec::new();
    v.push(owned("orbit"));
    v.push(owned("rebuild"));
    v.push(owned("-u"));
    v.push(owned("-f"));
    v.push(owned(config_dir));
    assert(texts(v@) =~= seq!["orbit"@, "rebuild"@, "-u"@, "-f"@, config_dir@]);
    v
}

/// The command used when `orbit` itself cannot be run.
pub fn install_fallback_command(config_dir: &str) -> (r: Vec<String>)
    ensures
        texts(r@) == seq!["sudo"@, "nixos-rebuild"@, "switch"@, "--flake"@, config_dir@],
{
    let mut v: Vec<String> = Vec::new();
    v.push(owned("sudo"));
    v.push(owned("nixos-rebuild"));
    v.push(owned("switch"));
    v.push(owned("--flake"));
    v.push(owned(config_dir));
    assert(texts(v@) =~= seq!["sudo"@, "nixos-rebuild"@, "switch"@, "--flake"@, config_dir@]);
    v
}

/// Where the configuration to install comes from.
#[derive(Debug)]
pub enum InstallSource {
    /// Clone `repo` into `dest` and use that.
    Clone { repo: String, dest: String },
    /// Use the configuration in this directory.
    Local(String),
    /// The configuration path given does not exist.
    Missing(String),
}

/// The value of an `InstallSource`.
pub enum InstallSourceView {
    Clone { repo: Seq<char>, dest: Seq<char> },
    Local(Seq<char>),
    Missing(Seq<char>),
}

impl View for InstallSource {
    type V = InstallSourceView;

    open spec fn view(&self) -> InstallSourceView {
        match self {
            InstallSource::Clone { repo, dest } => InstallSourceView::Clone { repo: repo@, dest: dest@ },
            InstallSource::Local(d) => InstallSourceView::Local(d@),
            InstallSource::Missing(d) => InstallSourceView::Missing(d@),
        }
    }
}

/// The repository installed when no configuration is given or found.
pub open spec fn default_repo() -> Seq<char> {
    "https://github.com/m-uvex/NixOS.git"@
}

/// Where the configuration comes from: a given repository URL is cloned; a
/// given path is used if it exists (else it is missing); with nothing
/// given, the working directory is used when it holds a `flake.nix` or is
/// named like a configuration, and the default repository is cloned
/// otherwise. Clones go to `/orbitos`, or under the home directory when
/// `/orbitos` exists.
pub open spec fn install_source_of(
    custom: Option<Seq<char>>,
    custom_exists: bool,
    cwd: Seq<char>,
    cwd_has_flake: bool,
    cwd_name: Seq<char>,
    orbitos_exists: bool,
    home: Seq<char>,
) -> InstallSourceView {
    match custom {
        Some(c) => if is_remote(c) {
            InstallSourceView::Clone { repo: c, dest: clone_destination_of(orbitos_exists, home) }
        } else if custom_exists {
            InstallSourceView::Local(c)
        } else {
            InstallSourceView::Missing(c)
        },
        None => if cwd_has_flake || is_config_name(cwd_name) {
            InstallSourceView::Local(cwd)
        } else {
            InstallSourceView::Clone { repo: default_repo(), dest: clone_destination_of(orbitos_exists, home) }
        },
    }
}

/// Chooses where the configuration to install comes from, given the
/// configuration asked for (and whether it exists as a path), the working
/// directory (whether it holds a `flake.nix`, and its name), whether
/// `/orbitos` exists, and the home directory.
pub fn install_source(
    custom: Option<&str>,
    custom_exists: bool,
    cwd: &str,
    cwd_has_flake: bool,
    cwd_name: &str,
    orbitos_exists: bool,
    home: &str,
) -> (r: InstallSource)
    ensures
        r@ == install_source_of(
            crate::shell::opt_str(custom),
            custom_exists,
            cwd@,
            cwd_has_flake,
            cwd_name@,
            orbitos_exists,
            home@,
        ),
{
    match custom {
        Some(c) => if is_remote_config(c) {
            InstallSource::Clone { repo: owned(c), dest: clone_destination(orbitos_exists, home) }
        } else if custom_exists {
            InstallSource::Local(owned(c))
        } else {
            InstallSource::Missing(owned(c))
        },
        None => if cwd_has_flake || is_config_dir_name(cwd_name) {
            InstallSource::Local(owned(cwd))
        } else {
            InstallSource::Clone {
                repo: owned("https://github.com/m-uvex/NixOS.git"),
                dest: clone_destination(orbitos_exists, home),
            }
        },
    }
}

//=========================================#
//            SYNC                         #
//=========================================#

/// What to do with local changes when syncing.
#[derive(Debug, Clone, Copy, PartialEq, Eq, Structural)]
pub enum SyncChoice {
    /// Keep the local changes and stop.
    Abort,
    /// Reset to the remote branch.
    OverwriteLocal,
    /// Commit and force-push the local changes.
    OverwriteRemote,
}

/// The answer to the sync question: `2` overwrites local changes, `3`
/// overwrites the remote, anything else aborts.
pub open spec fn sync_choice_of(input: Seq<char>) -> SyncChoice {
    let c = trim(input);
    if c == "2"@ {
        SyncChoice::OverwriteLocal
    } else if c == "3"@ {
        SyncChoice::OverwriteRemote
    } else {
        SyncChoice::Abort
    }
}

/// Reads the answer to the sync question.
pub fn sync_choice(input: &str) -> (r: SyncChoice)
    ensures
        r == sync_choice_of(input@),
{
    let c = trim_str(input);
    if eq_str(c.as_slice(), "2") {
        SyncChoice::OverwriteLocal
    } else if eq_str(c.as_slice(), "3") {
        SyncChoice::OverwriteRemote
    } else {
        SyncChoice::Abort
    }
}

/// A `git -C <dir> ...` command line.
pub fn git_command(dir: &str, args: &Vec<String>) -> (r: Vec<String>)
    ensures
        texts(r@) == seq!["git"@, "-C"@, dir@] + texts(args@),
{
    let mut v: Vec<String> = Vec::new();
    v.push(owned("git"));
    v.push(owned("-C"));
    v.push(owned(dir));
    let ghost before = v@;
    crate::rebuild::push_all(&mut v, args);
    assert(texts(before) =~= seq!["git"@, "-C"@, dir@]);
    v
}

/// One git command of a sync, and whether the sync stops when it fails.
#[derive(Debug)]
pub struct GitStep {
    pub argv: Vec<String>,
    pub must_succeed: bool,
}

/// The value of a step: its command line and whether it must succeed.
pub open spec fn step_view(s: GitStep) -> (Seq<Seq<char>>, bool) {
    (texts(s.argv@), s.must_succeed)
}

/// A git command in `dir`.
pub open spec fn git_in(dir: Seq<char>, args: Seq<Seq<char>>) -> Seq<Seq<char>> {
    seq!["git"@, "-C"@, dir] + args
}

/// The git commands of a sync: with no local changes, a pull; with local
/// changes, nothing when aborting, a fetch and a hard reset to the upstream
/// when overwriting the local changes, and adding everything, a commit
/// (whose failure is ignored) and a forced push when overwriting the remote.
pub open spec fn sync_steps_of(dir: Seq<char>, dirty: bool, choice: SyncChoice) -> Seq<(Seq<Seq<char>>, bool)> {
    if !dirty {
        seq![(git_in(dir, seq!["pull"@]), true)]
    } else {
        match choice {
            SyncChoice::Abort => seq![],
            SyncChoice::OverwriteLocal => seq![
                (git_in(dir, seq!["fetch"@]), true),
                (git_in(dir, seq!["reset"@, "--hard"@, "@{u}"@]), true),
            ],
            SyncChoice::OverwriteRemote => seq![
                (git_in(dir, seq!["add"@, "-A"@]), true),
                (git_in(dir, seq!["commit"@, "-m"@, "orbit sync: update configuration"@]), false),
                (git_in(dir, seq!["push"@, "--force-with-lease"@]), true),
            ],
        }
    }
}

/// A git command in `dir` with the given arguments, as a step.
fn git_step(dir: &str, args: Vec<String>, must_succeed: bool) -> (r: GitStep)
    ensures
        step_view(r) == (git_in(dir@, texts(args@)), must_succeed),
{
    GitStep { argv: git_command(dir, &args), must_succeed }
}

/// One argument.
fn arg1(a: &str) -> (r: Vec<String>)
    ensures
        texts(r@) == seq![a@],
{
    let mut v: Vec<String> = Vec::new();
    v.push(owned(a));
    assert(texts(v@) =~= seq![a@]);
    v
}

/// The git commands that a sync of the configuration in `dir` runs, in
/// order, given whether it has local changes and, if so, the user's choice.
pub fn sync_steps(dir: &str, dirty: bool, choice: SyncChoice) -> (r: Vec<GitStep>)
    ensures
        r@.map_values(|s: GitStep| step_view(s)) == sync_steps_of(dir@, dirty, choice),
{
    let mut steps: Vec<GitStep> = Vec::new();
    if !dirty {
        steps.push(git_step(dir, arg1("pull"), true));
    } else {
        match choice {
            SyncChoice::Abort => {},
            SyncChoice::OverwriteLocal => {
                steps.push(git_step(dir, arg1("fetch"), true));
                let mut a: Vec<String> = Vec::new();
                a.push(owned("reset"));
                a.push(owned("--hard"));
                a.push(owned("@{u}"));
                assert(texts(a@) =~= seq!["reset"@, "--hard"@, "@{u}"@]);
                steps.push(git_step(dir, a, true));
            },
            SyncChoice::OverwriteRemote => {
                let mut a: Vec<String> = Vec::new();
                a.push(owned("add"));
                a.push(owned("-A"));
                assert(texts(a@) =~= seq!["add"@, "-A"@]);
                steps.push(git_step(dir, a, true));
                let mut c: Vec<String> = Vec::new();
                c.push(owned("commit"));
                c.push(owned("-m"));
                c.push(owned("orbit sync: update configuration"));
                assert(texts(c@) =~= seq!["commit"@, "-m"@, "orbit sync: update configuration"@]);
                steps.push(git_step(dir, c, false));
                let mut p: Vec<String> = Vec::new();
                p.push(owned("push"));
                p.push(owned("--force-with-lease"));
                assert(texts(p@) =~= seq!["push"@, "--force-with-lease"@]);
                steps.push(git_step(dir, p, true));
            },
        }
    }
    assert(steps@.map_values(|s: GitStep| step_view(s)) =~= sync_steps_of(dir@, dirty, choice));
    steps
}

} // verus!
