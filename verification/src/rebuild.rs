//! Rebuild actions and options, and the command lines that a rebuild runs.
use vstd::prelude::*;
use crate::text::{chars_of, eq_str, string_of};

verus! {

//=========================================#
//            REBUILD ACTIONS              #
//=========================================#

/// What a rebuild does.
#[derive(Debug, Clone, Copy, PartialEq, Eq, Structural)]
pub enum RebuildAction {
    /// Build, activate and add to the boot menu.
    Switch,
    /// Build and activate without adding to the boot menu.
    Test,
    /// Build and add to the boot menu without activating (`nh os boot`).
    Build,
    Vm,
    Dry,
    Clean,
}

/// The subcommand name that an action passes to `nh os` (a dry run is a
/// switch with `--dry`).
pub open spec fn action_name(a: RebuildAction) -> Seq<char> {
    match a {
        RebuildAction::Switch => "switch"@,
        RebuildAction::Test => "test"@,
        RebuildAction::Build => "boot"@,
        RebuildAction::Vm => "build-vm"@,
        RebuildAction::Dry => "switch"@,
        RebuildAction::Clean => "clean"@,
    }
}

impl RebuildAction {
    /// The subcommand name of the action.
    pub fn as_str(&self) -> (r: &'static str)
        ensures
            r@ == action_name(*self),
    {
        match self {
            RebuildAction::Switch => "switch",
            RebuildAction::Test => "test",
            RebuildAction::Build => "boot",
            RebuildAction::Vm => "build-vm",
            RebuildAction::Dry => "switch",
            RebuildAction::Clean => "clean",
        }
    }

    pub fn is_dry(&self) -> (r: bool)
        ensures
            r == (*self == RebuildAction::Dry),
    {
        matches!(self, RebuildAction::Dry)
    }

    pub fn is_clean(&self) -> (r: bool)
        ensures
            r == (*self == RebuildAction::Clean),
    {
        matches!(self, RebuildAction::Clean)
    }

    pub fn is_vm(&self) -> (r: bool)
        ensures
            r == (*self == RebuildAction::Vm),
    {
        matches!(self, RebuildAction::Vm)
    }
}

//=========================================#
//            REBUILD OPTIONS              #
//=========================================#

/// The options of a rebuild. The flake directory is held as the text of its path.
#[derive(Debug, Clone)]
pub struct RebuildOptions {
    pub action: RebuildAction,
    pub host: Option<String>,
    pub flake_dir: Option<String>,
    pub update: bool,
    pub dry: bool,
    pub ask: bool,
    pub show_trace: bool,
    pub extra_args: Vec<String>,
    pub no_chat_sync: bool,
    pub no_ssh_prompt: bool,
    pub no_hypr_reload: bool,
}

/// The value of `RebuildOptions`, with strings as character sequences.
pub struct OptionsView {
    pub action: RebuildAction,
    pub host: Option<Seq<char>>,
    pub flake_dir: Option<Seq<char>>,
    pub update: bool,
    pub dry: bool,
    pub ask: bool,
    pub show_trace: bool,
    pub extra_args: Seq<Seq<char>>,
    pub no_chat_sync: bool,
    pub no_ssh_prompt: bool,
    pub no_hypr_reload: bool,
}

/// The text of an optional string.
pub open spec fn opt_text(o: Option<String>) -> Option<Seq<char>> {
    match o {
        Some(s) => Some(s@),
        None => None,
    }
}

/// The texts of a list of strings.
pub open spec fn texts(v: Seq<String>) -> Seq<Seq<char>> {
    v.map_values(|s: String| s@)
}

impl View for RebuildOptions {
    type V = OptionsView;

    open spec fn view(&self) -> OptionsView {
        OptionsView {
            action: self.action,
            host: opt_text(self.host),
            flake_dir: opt_text(self.flake_dir),
            update: self.update,
            dry: self.dry,
            ask: self.ask,
            show_trace: self.show_trace,
            extra_args: texts(self.extra_args@),
            no_chat_sync: self.no_chat_sync,
            no_ssh_prompt: self.no_ssh_prompt,
            no_hypr_reload: self.no_hypr_reload,
        }
    }
}

/// The default options: a switch with every flag off and no extra arguments.
pub open spec fn default_options() -> OptionsView {
    OptionsView {
        action: RebuildAction::Switch,
        host: None,
        flake_dir: None,
        update: false,
        dry: false,
        ask: false,
        show_trace: false,
        extra_args: seq![],
        no_chat_sync: false,
        no_ssh_prompt: false,
        no_hypr_reload: false,
    }
}

impl Default for RebuildOptions {
    fn default() -> (r: Self)
        ensures
            r@ == default_options(),
    {
        let r = RebuildOptions {
            action: RebuildAction::Switch,
            host: None,
            flake_dir: None,
            update: false,
            dry: false,
            ask: false,
            show_trace: false,
            extra_args: Vec::new(),
            no_chat_sync: false,
            no_ssh_prompt: false,
            no_hypr_reload: false,
        };
        assert(r@.extra_args =~= seq![]);
        r
    }
}

//=========================================#
//            COMMAND LINES                #
//=========================================#

/// An owned copy of a string literal.
pub fn owned(lit: &str) -> (r: String)
    ensures
        r@ == lit@,
{
    lit.to_owned()
}

/// Appends the texts of `more` to `out`.
pub fn push_all(out: &mut Vec<String>, more: &Vec<String>)
    ensures
        texts(final(out)@) == texts(old(out)@) + texts(more@),
{
    let mut i: usize = 0;
    while i < more.len()
        invariant
            i <= more.len(),
            texts(out@) == texts(old(out)@) + texts(more@.take(i as int)),
        decreases more.len() - i,
    {
        let ghost before = out@;
        out.push(more[i].clone());
        proof {
            assert(texts(out@) =~= texts(before) + seq![more@[i as int]@]);
            assert(texts(more@.take(i + 1)) =~= texts(more@.take(i as int)) + seq![
                more@[i as int]@,
            ]);
        }
        i = i + 1;
    }
    assert(more@.take(more.len() as int) =~= more@);
}

/// `[flag]` when `on`, else nothing.
pub open spec fn flag_if(on: bool, flag: Seq<char>) -> Seq<Seq<char>> {
    if on {
        seq![flag]
    } else {
        seq![]
    }
}

/// Whether a rebuild is a dry run: by its action or by its flag.
pub open spec fn is_dry_run(o: OptionsView) -> bool {
    o.action == RebuildAction::Dry || o.dry
}

/// The command line of the clean action: `nh clean all`, then `--dry`,
/// `--ask` when asked for, then the extra arguments.
pub open spec fn clean_argv(o: OptionsView) -> Seq<Seq<char>> {
    seq!["nh"@, "clean"@, "all"@] + flag_if(o.dry, "--dry"@) + flag_if(o.ask, "--ask"@)
        + o.extra_args
}

/// The command line that updates the flake inputs; `sudo` comes first when
/// the user is not root and the program was not started through sudo.
pub open spec fn flake_update_argv(flake_dir: Seq<char>, username: Seq<char>, under_sudo: bool) -> Seq<
    Seq<char>,
> {
    let base = seq!["nix"@, "flake"@, "update"@, "--flake"@, flake_dir];
    if username != "root"@ && !under_sudo {
        seq!["sudo"@] + base
    } else {
        base
    }
}

/// The command line that builds a VM of `host`'s configuration.
pub open spec fn vm_build_argv(o: OptionsView, flake_dir: Seq<char>, host: Seq<char>) -> Seq<
    Seq<char>,
> {
    seq!["nixos-rebuild"@, "build-vm"@, "--flake"@, flake_dir + "#"@ + host] + flag_if(
        o.show_trace,
        "--show-trace"@,
    ) + o.extra_args
}

/// The `nh os` command line that builds and applies `host`'s configuration.
pub open spec fn nh_os_argv(o: OptionsView, flake_dir: Seq<char>, host: Seq<char>) -> Seq<
    Seq<char>,
> {
    seq!["nh"@, "os"@, action_name(o.action), flake_dir, "-H"@, host] + flag_if(
        is_dry_run(o),
        "--dry"@,
    ) + flag_if(o.ask, "--ask"@) + flag_if(o.show_trace, "--show-trace"@) + o.extra_args
}

/// The command line of the clean action.
pub fn clean_command(opts: &RebuildOptions) -> (r: Vec<String>)
    ensures
        texts(r@) == clean_argv(opts@),
{
    let mut cmd: Vec<String> = Vec::new();
    cmd.push(owned("nh"));
    cmd.push(owned("clean"));
    cmd.push(owned("all"));
    if opts.dry {
        cmd.push(owned("--dry"));
    }
    if opts.ask {
        cmd.push(owned("--ask"));
    }
    let ghost before = cmd@;
    push_all(&mut cmd, &opts.extra_args);
    proof {
        assert(texts(before) =~= seq!["nh"@, "clean"@, "all"@] + flag_if(opts.dry, "--dry"@)
            + flag_if(opts.ask, "--ask"@));
        assert(texts(cmd@) =~= clean_argv(opts@));
    }
    cmd
}

/// The command line that updates the flake inputs in `flake_dir`.
pub fn flake_update_command(flake_dir: &str, username: &str, under_sudo: bool) -> (r: Vec<String>)
    ensures
        texts(r@) == flake_update_argv(flake_dir@, username@, under_sudo),
{
    let user = chars_of(username);
    let mut cmd: Vec<String> = Vec::new();
    if !eq_str(user.as_slice(), "root") && !under_sudo {
        cmd.push(owned("sudo"));
    }
    cmd.push(owned("nix"));
    cmd.push(owned("flake"));
    cmd.push(owned("update"));
    cmd.push(owned("--flake"));
    cmd.push(owned(flake_dir));
    assert(texts(cmd@) =~= flake_update_argv(flake_dir@, username@, under_sudo));
    cmd
}

/// `flake_dir#host`, the flake reference of a host's configuration.
pub fn flake_ref(flake_dir: &str, host: &str) -> (r: String)
    ensures
        r@ == flake_dir@ + "#"@ + host@,
{
    let mut cs = chars_of(flake_dir);
    let mut hash = chars_of("#");
    let mut h = chars_of(host);
    cs.append(&mut hash);
    cs.append(&mut h);
    string_of(cs.as_slice())
}

/// The command line that builds a VM of `host`'s configuration.
pub fn vm_build_command(opts: &RebuildOptions, flake_dir: &str, host: &str) -> (r: Vec<String>)
    ensures
        texts(r@) == vm_build_argv(opts@, flake_dir@, host@),
{
    let mut cmd: Vec<String> = Vec::new();
    cmd.push(owned("nixos-rebuild"));
    cmd.push(owned("build-vm"));
    cmd.push(owned("--flake"));
    cmd.push(flake_ref(flake_dir, host));
    if opts.show_trace {
        cmd.push(owned("--show-trace"));
    }
    let ghost before = cmd@;
    push_all(&mut cmd, &opts.extra_args);
    proof {
        assert(texts(before) =~= seq!["nixos-rebuild"@, "build-vm"@, "--flake"@, flake_dir@ + "#"@
            + host@] + flag_if(opts.show_trace, "--show-trace"@));
        assert(texts(cmd@) =~= vm_build_argv(opts@, flake_dir@, host@));
    }
    cmd
}

/// The `nh os` command line that builds and applies `host`'s configuration.
pub fn nh_os_command(opts: &RebuildOptions, flake_dir: &str, host: &str) -> (r: Vec<String>)
    ensures
        texts(r@) == nh_os_argv(opts@, flake_dir@, host@),
{
    let mut cmd: Vec<String> = Vec::new();
    cmd.push(owned("nh"));
    cmd.push(owned("os"));
    cmd.push(owned(opts.action.as_str()));
    cmd.push(owned(flake_dir));
    cmd.push(owned("-H"));
    cmd.push(owned(host));
    if opts.action.is_dry() || opts.dry {
        cmd.push(owned("--dry"));
    }
    if opts.ask {
        cmd.push(owned("--ask"));
    }
    if opts.show_trace {
        cmd.push(owned("--show-trace"));
    }
    let ghost before = cmd@;
    push_all(&mut cmd, &opts.extra_args);
    proof {
        assert(texts(before) =~= seq![
            "nh"@,
            "os"@,
            action_name(opts.action),
            flake_dir@,
            "-H"@,
            host@,
        ] + flag_if(is_dry_run(opts@), "--dry"@) + flag_if(opts.ask, "--ask"@) + flag_if(
            opts.show_trace,
            "--show-trace"@,
        ));
        assert(texts(cmd@) =~= nh_os_argv(opts@, flake_dir@, host@));
    }
    cmd
}

/// How the action is named in the progress message.
pub open spec fn display_action_name(o: OptionsView) -> Seq<char> {
    if is_dry_run(o) {
        "switch (dry-run)"@
    } else {
        action_name(o.action)
    }
}

/// How the action is named in the progress message.
pub fn display_action(opts: &RebuildOptions) -> (r: &'static str)
    ensures
        r@ == display_action_name(opts@),
{
    if opts.action.is_dry() || opts.dry {
        "switch (dry-run)"
    } else {
        opts.action.as_str()
    }
}

/// Whether the post-build steps (SSH key prompt, Hyprland reload) may run:
/// only after a real switch or test.
pub open spec fn post_build_allowed(o: OptionsView) -> bool {
    (o.action == RebuildAction::Switch || o.action == RebuildAction::Test) && !is_dry_run(o)
}

/// Whether the post-build steps may run.
pub fn runs_post_build_steps(opts: &RebuildOptions) -> (r: bool)
    ensures
        r == post_build_allowed(opts@),
{
    let is_switch_or_test = matches!(opts.action, RebuildAction::Switch | RebuildAction::Test);
    is_switch_or_test && !opts.dry && !opts.action.is_dry()
}

/// Whether to offer restoring SSH keys after the build.
pub fn offers_ssh_restore(opts: &RebuildOptions) -> (r: bool)
    ensures
        r == (post_build_allowed(opts@) && !opts.no_ssh_prompt),
{
    runs_post_build_steps(opts) && !opts.no_ssh_prompt
}

/// Whether to reload Hyprland after the build.
pub fn reloads_hyprland(opts: &RebuildOptions) -> (r: bool)
    ensures
        r == (post_build_allowed(opts@) && !opts.no_hypr_reload),
{
    runs_post_build_steps(opts) && !opts.no_hypr_reload
}

/// A dry run only previews: its `nh os` command carries `--dry`, and none of
/// the steps that follow an applied build runs.
pub proof fn law_dry_run_only_previews(o: OptionsView, flake_dir: Seq<char>, host: Seq<char>)
    requires
        is_dry_run(o),
    ensures
        nh_os_argv(o, flake_dir, host).contains("--dry"@),
        !post_build_allowed(o),
{
    assert(nh_os_argv(o, flake_dir, host)[6] == "--dry"@);
}

/// One step of a rebuild other than a clean. The rebuild stops at the first
/// command step that fails.
#[derive(Debug)]
pub enum RebuildStep {
    /// Update the flake inputs with this command.
    UpdateFlake(Vec<String>),
    /// Build the VM with this command (into `~/vmachines`).
    BuildVm(Vec<String>),
    /// Copy the VM runners that were built to `~/vmachines` and launch them;
    /// their failures are ignored.
    LaunchVm,
    /// Remove stale Home Manager `.backup` files.
    CleanBackups,
    /// Build and apply the configuration with this `nh os` command.
    ApplyConfiguration(Vec<String>),
    /// Offer to restore the SSH keys when none are present and an encrypted
    /// backup exists.
    OfferSshRestore,
    /// Reload Hyprland if it is running.
    ReloadHyprland,
}

/// The value of a `RebuildStep`.
pub enum RebuildStepView {
    UpdateFlake(Seq<Seq<char>>),
    BuildVm(Seq<Seq<char>>),
    LaunchVm,
    CleanBackups,
    ApplyConfiguration(Seq<Seq<char>>),
    OfferSshRestore,
    ReloadHyprland,
}

impl View for RebuildStep {
    type V = RebuildStepView;

    open spec fn view(&self) -> RebuildStepView {
        match self {
            RebuildStep::UpdateFlake(a) => RebuildStepView::UpdateFlake(texts(a@)),
            RebuildStep::BuildVm(a) => RebuildStepView::BuildVm(texts(a@)),
            RebuildStep::LaunchVm => RebuildStepView::LaunchVm,
            RebuildStep::CleanBackups => RebuildStepView::CleanBackups,
            RebuildStep::ApplyConfiguration(a) => RebuildStepView::ApplyConfiguration(texts(a@)),
            RebuildStep::OfferSshRestore => RebuildStepView::OfferSshRestore,
            RebuildStep::ReloadHyprland => RebuildStepView::ReloadHyprland,
        }
    }
}

/// A step when `on` holds, else nothing.
pub open spec fn step_if(on: bool, step: RebuildStepView) -> Seq<RebuildStepView> {
    if on {
        seq![step]
    } else {
        seq![]
    }
}

/// The steps of a rebuild other than a clean, in order: the flake update
/// when asked for; then for a VM its build and launch; otherwise the removal
/// of stale backups, the `nh os` command, and, after an applied build (a
/// switch or test that is not dry), the SSH restore offer and the Hyprland
/// reload unless they are skipped.
pub open spec fn rebuild_steps_of(
    o: OptionsView,
    flake_dir: Seq<char>,
    host: Seq<char>,
    username: Seq<char>,
    under_sudo: bool,
) -> Seq<RebuildStepView> {
    let update = step_if(
        o.update,
        RebuildStepView::UpdateFlake(flake_update_argv(flake_dir, username, under_sudo)),
    );
    if o.action == RebuildAction::Vm {
        update + seq![
            RebuildStepView::BuildVm(vm_build_argv(o, flake_dir, host)),
            RebuildStepView::LaunchVm,
        ]
    } else {
        update + seq![
            RebuildStepView::CleanBackups,
            RebuildStepView::ApplyConfiguration(nh_os_argv(o, flake_dir, host)),
        ] + step_if(post_build_allowed(o) && !o.no_ssh_prompt, RebuildStepView::OfferSshRestore)
            + step_if(post_build_allowed(o) && !o.no_hypr_reload, RebuildStepView::ReloadHyprland)
    }
}

/// The steps of a rebuild other than a clean (whose one step is
/// `clean_command`), for the resolved flake directory and host, the target
/// user, and whether the program runs under sudo.
pub fn rebuild_steps(
    opts: &RebuildOptions,
    flake_dir: &str,
    host: &str,
    username: &str,
    under_sudo: bool,
) -> (r: Vec<RebuildStep>)
    requires
        opts@.action != RebuildAction::Clean,
    ensures
        r@.map_values(|s: RebuildStep| s@) == rebuild_steps_of(
            opts@,
            flake_dir@,
            host@,
            username@,
            under_sudo,
        ),
{
    let mut steps: Vec<RebuildStep> = Vec::new();
    if opts.update {
        steps.push(RebuildStep::UpdateFlake(flake_update_command(flake_dir, username, under_sudo)));
    }
    if opts.action.is_vm() {
        steps.push(RebuildStep::BuildVm(vm_build_command(opts, flake_dir, host)));
        steps.push(RebuildStep::LaunchVm);
    } else {
        steps.push(RebuildStep::CleanBackups);
        steps.push(RebuildStep::ApplyConfiguration(nh_os_command(opts, flake_dir, host)));
        if offers_ssh_restore(opts) {
            steps.push(RebuildStep::OfferSshRestore);
        }
        if reloads_hyprland(opts) {
            steps.push(RebuildStep::ReloadHyprland);
        }
    }
    assert(steps@.map_values(|s: RebuildStep| s@) =~= rebuild_steps_of(
        opts@,
        flake_dir@,
        host@,
        username@,
        under_sudo,
    ));
    steps
}

/// The number of flags a condition adds: one when it holds.
pub open spec fn count_if(on: bool) -> int {
    if on {
        1
    } else {
        0
    }
}

/// The `nh os` command line runs `nh os <action> <flake> -H <host>`, then
/// one flag for each of dry run, ask and show-trace that is on, and ends
/// with every extra argument, in order.
pub proof fn law_nh_os_command_shape(o: OptionsView, flake_dir: Seq<char>, host: Seq<char>)
    ensures
        nh_os_argv(o, flake_dir, host).len() == 6 + count_if(is_dry_run(o)) + count_if(o.ask)
            + count_if(o.show_trace) + o.extra_args.len(),
        nh_os_argv(o, flake_dir, host).take(6) == seq!["nh"@, "os"@, action_name(o.action), flake_dir, "-H"@, host],
        nh_os_argv(o, flake_dir, host).skip(
            nh_os_argv(o, flake_dir, host).len() - o.extra_args.len(),
        ) == o.extra_args,
        nh_os_argv(o, flake_dir, host).contains("--dry"@) <== is_dry_run(o),
        o.ask ==> nh_os_argv(o, flake_dir, host).contains("--ask"@),
{
    let a = nh_os_argv(o, flake_dir, host);
    let head = seq!["nh"@, "os"@, action_name(o.action), flake_dir, "-H"@, host];
    let flags = flag_if(is_dry_run(o), "--dry"@) + flag_if(o.ask, "--ask"@) + flag_if(
        o.show_trace,
        "--show-trace"@,
    );
    assert(a =~= head + flags + o.extra_args);
    assert(a.take(6) =~= head);
    assert(a.skip(a.len() - o.extra_args.len()) =~= o.extra_args);
    if is_dry_run(o) {
        assert(a[6] == "--dry"@);
    }
    if o.ask {
        assert(a[6 + count_if(is_dry_run(o))] == "--ask"@);
    }
}

/// The decimal text of a number.
pub open spec fn decimal_text(n: nat) -> Seq<char>
    decreases n,
{
    if n < 10 {
        seq![(n + 48) as char]
    } else {
        decimal_text(n / 10).push(((n % 10) + 48) as char)
    }
}

/// The decimal text of a number, as `to_string` writes it.
pub fn decimal_string(n: u64) -> (r: String)
    ensures
        r@ == decimal_text(n as nat),
{
    let mut digits: Vec<char> = Vec::new();
    let mut m: u64 = n;
    loop
        invariant_except_break
            decimal_text(n as nat) == decimal_text(m as nat) + digits@,
        ensures
            decimal_text(n as nat) == digits@,
        decreases m,
    {
        let d: u64 = m % 10;
        let c: char = ((d as u8) + 48) as char;
        if m < 10 {
            digits.insert(0, c);
            assert(decimal_text(m as nat) =~= seq![c]);
            assert(seq![c] + (digits@.drop_first()) =~= digits@);
            break;
        }
        let ghost old_digits = digits@;
        digits.insert(0, c);
        assert(decimal_text(m as nat) == decimal_text((m / 10) as nat).push(c));
        assert(decimal_text((m / 10) as nat) + digits@ =~= decimal_text(m as nat) + old_digits);
        m = m / 10;
    }
    string_of(digits.as_slice())
}

/// The command line that reloads Hyprland: through `sudo -u user env
/// XDG_RUNTIME_DIR=/run/user/<uid>` when the program runs under sudo for
/// another user than root, else plainly.
pub open spec fn hyprland_reload_argv(under_sudo_non_root: bool, user: Seq<char>, uid: u32) -> Seq<
    Seq<char>,
> {
    if under_sudo_non_root {
        seq![
            "sudo"@,
            "-u"@,
            user,
            "env"@,
            "XDG_RUNTIME_DIR=/run/user/"@ + decimal_text(uid as nat),
            "hyprctl"@,
            "reload"@,
        ]
    } else {
        seq!["hyprctl"@, "reload"@]
    }
}

/// Whether the program runs under sudo for a user other than root, from the
/// value of `SUDO_USER`.
pub open spec fn sudo_non_root(sudo_user: Option<Seq<char>>) -> bool {
    match sudo_user {
        Some(u) => u != "root"@,
        None => false,
    }
}

/// The command line that reloads Hyprland, given `SUDO_USER`, the target
/// user and its uid.
pub fn hyprland_reload_command(sudo_user: Option<&str>, user: &str, uid: u32) -> (r: Vec<String>)
    ensures
        texts(r@) == hyprland_reload_argv(
            sudo_non_root(
                match sudo_user {
                    Some(u) => Some(u@),
                    None => None,
                },
            ),
            user@,
            uid,
        ),
{
    let is_sudo = match sudo_user {
        Some(u) => {
            let cs = chars_of(u);
            !eq_str(cs.as_slice(), "root")
        },
        None => false,
    };
    let mut cmd: Vec<String> = Vec::new();
    if is_sudo {
        cmd.push(owned("sudo"));
        cmd.push(owned("-u"));
        cmd.push(owned(user));
        cmd.push(owned("env"));
        let mut var = chars_of("XDG_RUNTIME_DIR=/run/user/");
        let num = decimal_string(uid as u64);
        let mut num_chars = chars_of(num.as_str());
        var.append(&mut num_chars);
        cmd.push(string_of(var.as_slice()));
    }
    cmd.push(owned("hyprctl"));
    cmd.push(owned("reload"));
    proof {
        assert(texts(cmd@) =~= hyprland_reload_argv(
            sudo_non_root(
                match sudo_user {
                    Some(u) => Some(u@),
                    None => None,
                },
            ),
            user@,
            uid,
        ));
    }
    cmd
}

} // verus!
