//! The command line: its commands and arguments, and the flexible parser for
//! rebuild arguments written the legacy way (`orbit switch -u host`).
use vstd::prelude::*;
use crate::rebuild::{
    RebuildAction, RebuildOptions, OptionsView, opt_text, texts, default_options,
};
use crate::text::{chars_of, eq_str, starts_with_str, has_prefix};

verus! {

//=========================================#
//               ORBIT CLI                 #
//=========================================#

/// The parsed command line: a subcommand, and the flake directory given with
/// `--flake`.
#[derive(Debug)]
pub struct OrbitCli {
    pub command: Option<Commands>,
    pub flake: Option<String>,
}

/// The subcommands.
#[derive(Debug)]
pub enum Commands {
    Rebuild(RebuildArgs),
    Run { query: String },
    RunGui { query: String },
    Shell { shell: Option<String> },
    Update,
    Build(CommonRebuildArgs),
    Test(CommonRebuildArgs),
    BuildOnly(CommonRebuildArgs),
    Dry(CommonRebuildArgs),
    Clean { dry: bool, ask: bool, extra_args: Vec<String> },
    Sync,
    Secrets { cmd: SecretsCommands },
    Install { config: Option<String> },
    Orbit,
    Love,
    Mini { variant: Option<String> },
}

/// The arguments shared by the build, test, build-only and dry subcommands.
#[derive(Debug, Clone)]
pub struct CommonRebuildArgs {
    pub host: Option<String>,
    pub update: bool,
    pub dry: bool,
    pub ask: bool,
    pub show_trace: bool,
    pub no_chat_sync: bool,
    pub no_ssh_prompt: bool,
    pub no_hypr_reload: bool,
    pub extra_args: Vec<String>,
}

/// The arguments of the rebuild subcommand.
#[derive(Debug, Clone)]
pub struct RebuildArgs {
    pub host: Option<String>,
    pub update: bool,
    pub dry: bool,
    pub test: bool,
    pub vm: bool,
    pub ask: bool,
    pub show_trace: bool,
    pub no_chat_sync: bool,
    pub no_ssh_prompt: bool,
    pub no_hypr_reload: bool,
    pub extra_args: Vec<String>,
}

/// The secrets subcommands.
#[derive(Debug, Clone)]
pub enum SecretsCommands {
    Store { secret_type: Option<String>, encryption: Option<String> },
    Restore { secret_type: Option<String>, encryption: Option<String>, archive: Option<String> },
}

//=========================================#
//        OPTIONS FROM SUBCOMMANDS         #
//=========================================#

/// The action that the rebuild subcommand's flags select: test, else VM,
/// else dry run, else switch.
pub open spec fn rebuild_args_action(test: bool, vm: bool, dry: bool) -> RebuildAction {
    if test {
        RebuildAction::Test
    } else if vm {
        RebuildAction::Vm
    } else if dry {
        RebuildAction::Dry
    } else {
        RebuildAction::Switch
    }
}

impl RebuildArgs {
    /// The options of a `rebuild` subcommand, with the global flake directory.
    pub fn into_options(self, flake_dir: Option<String>) -> (r: RebuildOptions)
        ensures
            r@ == (OptionsView {
                action: rebuild_args_action(self.test, self.vm, self.dry),
                host: opt_text(self.host),
                flake_dir: opt_text(flake_dir),
                update: self.update,
                dry: self.dry,
                ask: self.ask,
                show_trace: self.show_trace,
                extra_args: texts(self.extra_args@),
                no_chat_sync: self.no_chat_sync,
                no_ssh_prompt: self.no_ssh_prompt,
                no_hypr_reload: self.no_hypr_reload,
            }),
    {
        let action = if self.test {
            RebuildAction::Test
        } else if self.vm {
            RebuildAction::Vm
        } else if self.dry {
            RebuildAction::Dry
        } else {
            RebuildAction::Switch
        };
        RebuildOptions {
            action,
            host: self.host,
            flake_dir,
            update: self.update,
            dry: self.dry,
            ask: self.ask,
            show_trace: self.show_trace,
            extra_args: self.extra_args,
            no_chat_sync: self.no_chat_sync,
            no_ssh_prompt: self.no_ssh_prompt,
            no_hypr_reload: self.no_hypr_reload,
        }
    }
}

impl CommonRebuildArgs {
    /// The options of the build, test, build-only or dry subcommand: the
    /// subcommand fixes the action; the dry subcommand also sets the dry flag.
    pub fn into_options(self, action: RebuildAction, flake_dir: Option<String>) -> (r:
        RebuildOptions)
        ensures
            r@ == (OptionsView {
                action,
                host: opt_text(self.host),
                flake_dir: opt_text(flake_dir),
                update: self.update,
                dry: self.dry || action == RebuildAction::Dry,
                ask: self.ask,
                show_trace: self.show_trace,
                extra_args: texts(self.extra_args@),
                no_chat_sync: self.no_chat_sync,
                no_ssh_prompt: self.no_ssh_prompt,
                no_hypr_reload: self.no_hypr_reload,
            }),
    {
        let dry = self.dry || action.is_dry();
        RebuildOptions {
            action,
            host: self.host,
            flake_dir,
            update: self.update,
            dry,
            ask: self.ask,
            show_trace: self.show_trace,
            extra_args: self.extra_args,
            no_chat_sync: self.no_chat_sync,
            no_ssh_prompt: self.no_ssh_prompt,
            no_hypr_reload: self.no_hypr_reload,
        }
    }
}

/// The options of the clean subcommand: no host, no update, and the chat
/// sync, SSH prompt and Hyprland reload all skipped.
pub fn clean_options(dry: bool, ask: bool, extra_args: Vec<String>, flake_dir: Option<String>) -> (r:
    RebuildOptions)
    ensures
        r@ == (OptionsView {
            action: RebuildAction::Clean,
            host: None,
            flake_dir: opt_text(flake_dir),
            update: false,
            dry,
            ask,
            show_trace: false,
            extra_args: texts(extra_args@),
            no_chat_sync: true,
            no_ssh_prompt: true,
            no_hypr_reload: true,
        }),
{
    RebuildOptions {
        action: RebuildAction::Clean,
        host: None,
        flake_dir,
        update: false,
        dry,
        ask,
        show_trace: false,
        extra_args,
        no_chat_sync: true,
        no_ssh_prompt: true,
        no_hypr_reload: true,
    }
}

//=========================================#
//        FLEXIBLE ARGUMENT PARSER         #
//=========================================#

/// `s` with every leading repetition of `p` removed (as `trim_start_matches`).
pub open spec fn strip_prefix_all(s: Seq<char>, p: Seq<char>) -> Seq<char>
    decreases s.len(),
{
    if p.len() > 0 && has_prefix(s, p) {
        strip_prefix_all(s.skip(p.len() as int), p)
    } else {
        s
    }
}

/// How many arguments the argument at `i` takes: two for `-f`/`--flake`
/// followed by a value, else one.
pub open spec fn arg_width(args: Seq<Seq<char>>, i: int) -> int {
    if (args[i] == "-f"@ || args[i] == "--flake"@) && i + 1 < args.len() {
        2
    } else {
        1
    }
}

/// The options after reading the argument at `i`.
pub open spec fn read_arg(o: OptionsView, args: Seq<Seq<char>>, i: int) -> OptionsView {
    let a = args[i];
    if a == "switch"@ {
        OptionsView { action: RebuildAction::Switch, ..o }
    } else if a == "test"@ || a == "-t"@ {
        OptionsView { action: RebuildAction::Test, ..o }
    } else if a == "build"@ || a == "build-only"@ {
        OptionsView { action: RebuildAction::Build, ..o }
    } else if a == "vm"@ || a == "-v"@ {
        OptionsView { action: RebuildAction::Vm, ..o }
    } else if a == "dry"@ || a == "--dry"@ || a == "-d"@ {
        OptionsView { dry: true, ..o }
    } else if a == "clean"@ {
        OptionsView { action: RebuildAction::Clean, ..o }
    } else if a == "update"@ || a == "--update"@ || a == "-u"@ {
        OptionsView { update: true, ..o }
    } else if a == "--ask"@ || a == "-a"@ {
        OptionsView { ask: true, ..o }
    } else if a == "--show-trace"@ {
        OptionsView { show_trace: true, ..o }
    } else if a == "--no-chat-sync"@ {
        OptionsView { no_chat_sync: true, ..o }
    } else if a == "--no-ssh-prompt"@ {
        OptionsView { no_ssh_prompt: true, ..o }
    } else if a == "--no-hypr-reload"@ {
        OptionsView { no_hypr_reload: true, ..o }
    } else if a == "-f"@ || a == "--flake"@ {
        if i + 1 < args.len() {
            OptionsView { flake_dir: Some(args[i + 1]), ..o }
        } else {
            o
        }
    } else if has_prefix(a, "--flake="@) {
        OptionsView { flake_dir: Some(strip_prefix_all(a, "--flake="@)), ..o }
    } else if a.len() > 0 && a[0] == '-' {
        OptionsView { extra_args: o.extra_args.push(a), ..o }
    } else if o.host is None {
        OptionsView { host: Some(a), ..o }
    } else {
        OptionsView { extra_args: o.extra_args.push(a), ..o }
    }
}

/// The options once all arguments are read: a dry flag turns any action
/// but clean into a dry run.
pub open spec fn finish_args(o: OptionsView) -> OptionsView {
    if o.dry && o.action != RebuildAction::Clean {
        OptionsView { action: RebuildAction::Dry, ..o }
    } else {
        o
    }
}

/// The options from reading the arguments from index `i` on.
pub open spec fn read_args_from(o: OptionsView, args: Seq<Seq<char>>, i: int) -> OptionsView
    decreases args.len() - i,
{
    if 0 <= i < args.len() {
        read_args_from(read_arg(o, args, i), args, i + arg_width(args, i))
    } else {
        finish_args(o)
    }
}

/// The options that the legacy rebuild arguments denote, starting from the
/// defaults with the given flake directory.
pub open spec fn flexible_options(args: Seq<Seq<char>>, flake_dir: Option<Seq<char>>) -> OptionsView {
    read_args_from(OptionsView { flake_dir, ..default_options() }, args, 0)
}

/// The options after reading the arguments from index `i` on, before the
/// final dry-run adjustment.
pub open spec fn read_all_from(o: OptionsView, args: Seq<Seq<char>>, i: int) -> OptionsView
    decreases args.len() - i,
{
    if 0 <= i < args.len() {
        read_all_from(read_arg(o, args, i), args, i + arg_width(args, i))
    } else {
        o
    }
}

/// Whether reading the arguments from index `i` on reads the argument at
/// index `k` as an argument of its own (not as the value of a `-f`).
pub open spec fn scan_reads(args: Seq<Seq<char>>, i: int, k: int) -> bool
    decreases args.len() - i,
{
    if 0 <= i < args.len() {
        i == k || scan_reads(args, i + arg_width(args, i), k)
    } else {
        false
    }
}

/// Whether the argument is `-f` or `--flake`, which take the next argument
/// as their value.
pub open spec fn is_flake_flag(a: Seq<char>) -> bool {
    a == "-f"@ || a == "--flake"@
}

/// Whether the last argument is a `-f`/`--flake` read as such, which would
/// take an argument added after it as its value.
pub open spec fn ends_with_flake_flag(args: Seq<Seq<char>>) -> bool {
    args.len() > 0 && scan_reads(args, 0, args.len() - 1) && is_flake_flag(args.last())
}

proof fn lemma_read_args_finish(o: OptionsView, args: Seq<Seq<char>>, i: int)
    ensures
        read_args_from(o, args, i) == finish_args(read_all_from(o, args, i)),
    decreases args.len() - i,
{
    if 0 <= i < args.len() {
        lemma_read_args_finish(read_arg(o, args, i), args, i + arg_width(args, i));
    }
}

proof fn lemma_read_all_push(o: OptionsView, args: Seq<Seq<char>>, x: Seq<char>, i: int)
    requires
        0 <= i <= args.len(),
        !(args.len() > 0 && scan_reads(args, i, args.len() - 1) && is_flake_flag(args.last())),
    ensures
        read_all_from(o, args.push(x), i) == read_all_from(read_all_from(o, args, i), args.push(x), args.len() as int),
    decreases args.len() - i,
{
    let ext = args.push(x);
    if i < args.len() {
        assert(ext[i] == args[i]);
        if i + 1 < args.len() {
            assert(ext[i + 1] == args[i + 1]);
        } else {
            assert(scan_reads(args, i, args.len() - 1));
            assert(!is_flake_flag(args[i]));
        }
        assert(arg_width(ext, i) == arg_width(args, i));
        assert(read_arg(o, ext, i) == read_arg(o, args, i));
        let w = arg_width(args, i);
        assert(scan_reads(args, i + w, args.len() - 1) ==> scan_reads(args, i, args.len() - 1));
        lemma_read_all_push(read_arg(o, args, i), args, x, i + w);
    }
}

/// In the legacy arguments the word `update`, like `--update` and `-u`,
/// only sets the update flag: adding it at the end (where no `-f` takes it
/// as its value) gives the same options with update on, so it is never read
/// as the host or an extra argument.
pub proof fn law_update_word_sets_update(args: Seq<Seq<char>>, flake_dir: Option<Seq<char>>)
    requires
        !ends_with_flake_flag(args),
    ensures
        flexible_options(args.push("update"@), flake_dir) == (OptionsView {
            update: true,
            ..flexible_options(args, flake_dir)
        }),
{
    reveal_strlit("update");
    reveal_strlit("switch");
    reveal_strlit("test");
    reveal_strlit("-t");
    reveal_strlit("build");
    reveal_strlit("build-only");
    reveal_strlit("vm");
    reveal_strlit("-v");
    reveal_strlit("dry");
    reveal_strlit("--dry");
    reveal_strlit("-d");
    reveal_strlit("clean");
    let ext = args.push("update"@);
    let o0 = OptionsView { flake_dir, ..default_options() };
    lemma_read_args_finish(o0, ext, 0);
    lemma_read_args_finish(o0, args, 0);
    lemma_read_all_push(o0, args, "update"@, 0);
    let r = read_all_from(o0, args, 0);
    let n = args.len() as int;
    assert(ext[n] == "update"@);
    assert("update"@[0] != "switch"@[0]);
    assert(arg_width(ext, n) == 1);
    assert(read_arg(r, ext, n) == OptionsView { update: true, ..r });
    assert(read_all_from(r, ext, n) == read_all_from(read_arg(r, ext, n), ext, n + 1));
}

/// Reading arguments from `i` on ends with a dry run or a clean whenever the
/// dry flag is set.
proof fn lemma_read_args_dry(o: OptionsView, args: Seq<Seq<char>>, i: int)
    ensures
        read_args_from(o, args, i).dry ==> (read_args_from(o, args, i).action == RebuildAction::Dry
            || read_args_from(o, args, i).action == RebuildAction::Clean),
    decreases args.len() - i,
{
    if 0 <= i < args.len() {
        lemma_read_args_dry(read_arg(o, args, i), args, i + arg_width(args, i));
    }
}

/// Whatever the legacy arguments, a rebuild they ask to be dry is a dry
/// run, unless it is a clean: the dry flag never leaves another action in
/// place.
pub proof fn law_dry_flag_makes_dry_run(args: Seq<Seq<char>>, flake_dir: Option<Seq<char>>)
    ensures
        flexible_options(args, flake_dir).dry ==> (flexible_options(args, flake_dir).action
            == RebuildAction::Dry || flexible_options(args, flake_dir).action
            == RebuildAction::Clean),
{
    lemma_read_args_dry(OptionsView { flake_dir, ..default_options() }, args, 0);
}

/// `s` with every leading repetition of the non-empty `lit` removed.
fn strip_prefix_all_str(s: &[char], lit: &str) -> (r: Vec<char>)
    requires
        lit@.len() > 0,
    ensures
        r@ == strip_prefix_all(s@, lit@),
{
    let mut rest: Vec<char> = vstd::slice::slice_to_vec(s);
    assert(rest@ == s@);
    let p = chars_of(lit);
    while starts_with_str(rest.as_slice(), lit)
        invariant
            strip_prefix_all(s@, lit@) == strip_prefix_all(rest@, lit@),
            p@ == lit@,
            lit@.len() > 0,
        decreases rest@.len(),
    {
        let mut next: Vec<char> = Vec::new();
        let mut k: usize = p.len();
        while k < rest.len()
            invariant
                p.len() <= k <= rest.len(),
                next@ == rest@.subrange(p.len() as int, k as int),
            decreases rest.len() - k,
        {
            next.push(rest[k]);
            k = k + 1;
            assert(next@ =~= rest@.subrange(p.len() as int, k as int));
        }
        assert(next@ =~= rest@.skip(lit@.len() as int));
        rest = next;
    }
    rest
}

/// Reads the argument at `i` into the options.
#[verifier::spinoff_prover]
#[verifier::rlimit(50)]
fn apply_flexible_arg(o: &mut RebuildOptions, args: &[String], i: usize)
    requires
        i < args@.len(),
    ensures
        final(o)@ == read_arg(old(o)@, texts(args@), i as int),
{
    proof {
        reveal_strlit("--flake=");
    }
    let ghost av = texts(args@);
    let n = args.len();
    let ghost before = old(o)@;
    let a = chars_of(args[i].as_str());
    assert(a@ == av[i as int]);
    if eq_str(a.as_slice(), "switch") {
        o.action = RebuildAction::Switch;
    } else if eq_str(a.as_slice(), "test") || eq_str(a.as_slice(), "-t") {
        o.action = RebuildAction::Test;
    } else if eq_str(a.as_slice(), "build") || eq_str(a.as_slice(), "build-only") {
        o.action = RebuildAction::Build;
    } else if eq_str(a.as_slice(), "vm") || eq_str(a.as_slice(), "-v") {
        o.action = RebuildAction::Vm;
    } else if eq_str(a.as_slice(), "dry") || eq_str(a.as_slice(), "--dry") || eq_str(
        a.as_slice(),
        "-d",
    ) {
        o.dry = true;
    } else if eq_str(a.as_slice(), "clean") {
        o.action = RebuildAction::Clean;
    } else if eq_str(a.as_slice(), "update") || eq_str(a.as_slice(), "--update") || eq_str(
        a.as_slice(),
        "-u",
    ) {
        o.update = true;
    } else if eq_str(a.as_slice(), "--ask") || eq_str(a.as_slice(), "-a") {
        o.ask = true;
    } else if eq_str(a.as_slice(), "--show-trace") {
        o.show_trace = true;
    } else if eq_str(a.as_slice(), "--no-chat-sync") {
        o.no_chat_sync = true;
    } else if eq_str(a.as_slice(), "--no-ssh-prompt") {
        o.no_ssh_prompt = true;
    } else if eq_str(a.as_slice(), "--no-hypr-reload") {
        o.no_hypr_reload = true;
    } else if eq_str(a.as_slice(), "-f") || eq_str(a.as_slice(), "--flake") {
        if i + 1 < n {
            o.flake_dir = Some(args[i + 1].clone());
        }
    } else if starts_with_str(a.as_slice(), "--flake=") {
        let v = strip_prefix_all_str(a.as_slice(), "--flake=");
        o.flake_dir = Some(crate::text::string_of(v.as_slice()));
    } else if a.len() > 0 && a[0] == '-' {
        o.extra_args.push(args[i].clone());
        assert(texts(o.extra_args@) =~= before.extra_args.push(av[i as int]));
    } else if o.host.is_none() {
        o.host = Some(args[i].clone());
    } else {
        o.extra_args.push(args[i].clone());
        assert(texts(o.extra_args@) =~= before.extra_args.push(av[i as int]));
    }
}

/// Parses rebuild arguments written the legacy way (`orbit switch -u`,
/// `orbit dry myhost`): action words, short and long flags, `-f`/`--flake`
/// with a value or `--flake=value`, a first plain word as the host, and any
/// other word or unknown flag passed on as an extra argument.
pub fn parse_flexible_rebuild_args(args: &[String], flake_dir: Option<String>) -> (r: RebuildOptions)
    ensures
        r@ == flexible_options(texts(args@), opt_text(flake_dir)),
{
    let ghost av = texts(args@);
    let mut o = RebuildOptions {
        action: RebuildAction::Switch,
        host: None,
        flake_dir,
        update: false,
        dry: false,
        ask: false,
        show_trace: false,
        extra_args: Vec::new(),
        no_chat_sync: false,
        no_ssh_prompt: false,
        no_hypr_reload: false,
    };
    assert(texts(o.extra_args@) =~= seq![]);
    assert(o@ == OptionsView { flake_dir: opt_text(flake_dir), ..default_options() });
    let n = args.len();
    let mut i: usize = 0;
    while i < n
        invariant
            i <= n,
            n == args@.len(),
            av == texts(args@),
            read_args_from(o@, av, i as int) == flexible_options(av, opt_text(flake_dir)),
        decreases n - i,
    {
        let flake_flag = {
            let a = chars_of(args[i].as_str());
            eq_str(a.as_slice(), "-f") || eq_str(a.as_slice(), "--flake")
        };
        let step: usize = if flake_flag && i + 1 < n {
            2
        } else {
            1
        };
        apply_flexible_arg(&mut o, args, i);
        assert(step == arg_width(av, i as int));
        i = i + step;
    }
    if o.dry && !o.action.is_clean() {
        o.action = RebuildAction::Dry;
    }
    o
}

} // verus!
