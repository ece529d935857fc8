//! What an invocation of the program asks for: the easter eggs and the
//! legacy rebuild words read straight from the arguments, then the
//! subcommands of the parsed command line.
use vstd::prelude::*;
use crate::animation::{AnimationType, is_love_word, love_word, mini_animation, mini_animation_of};
use crate::cli::{Commands, OrbitCli, RebuildArgs, CommonRebuildArgs, clean_options, rebuild_args_action};
use crate::rebuild::{RebuildAction, RebuildOptions, OptionsView, opt_text, texts};
use crate::secrets::{SecretsRequest, handle_secrets_command, secrets_outcome};
use crate::text::{chars_of, eq_str, ends_with_str, has_suffix};

verus! {

//=========================================#
//            EARLY ARGUMENT CHECKS        #
//=========================================#

/// Whether the program runs under its short name `orbt`.
pub open spec fn is_orbt_name(prog_name: Seq<char>) -> bool {
    prog_name == "orbt"@ || has_suffix(prog_name, "/orbt"@)
}

/// Whether the program's name is the short name `orbt`.
pub fn is_orbt(prog_name: &str) -> (r: bool)
    ensures
        r == is_orbt_name(prog_name@),
{
    let c = chars_of(prog_name);
    eq_str(c.as_slice(), "orbt") || ends_with_str(c.as_slice(), "/orbt")
}

/// What the arguments ask for before the command line is parsed.
#[derive(Debug)]
pub enum Invocation {
    /// Play an animation.
    Animation(AnimationType),
    /// Run the shell subcommand with this argument.
    Shell(Option<String>),
    /// Rebuild with the arguments after the program name, read the legacy way.
    LegacyRebuild,
    /// Parse the command line.
    Cli,
}

/// The value of an `Invocation`.
pub enum InvocationView {
    Animation(AnimationType),
    Shell(Option<Seq<char>>),
    LegacyRebuild,
    Cli,
}

impl View for Invocation {
    type V = InvocationView;

    open spec fn view(&self) -> InvocationView {
        match self {
            Invocation::Animation(a) => InvocationView::Animation(*a),
            Invocation::Shell(s) => InvocationView::Shell(opt_text(*s)),
            Invocation::LegacyRebuild => InvocationView::LegacyRebuild,
            Invocation::Cli => InvocationView::Cli,
        }
    }
}

/// The rebuild words that may stand first instead of a subcommand.
pub open spec fn is_legacy_action(a: Seq<char>) -> bool {
    a == "switch"@ || a == "test"@ || a == "boot"@ || a == "build"@ || a == "build-only"@ || a
        == "dry"@ || a == "clean"@
}

/// What the arguments (the program name first) ask for: with no argument,
/// the orbit animation (mini under `orbt`); love words give a heart; the
/// mini words give the mini orbit or, followed by a love word, the mini
/// heart; `orbit` alone gives the orbit and followed by a love word a heart;
/// `shell` runs the shell subcommand; a rebuild word rebuilds; anything
/// else goes to the command-line parser.
pub open spec fn invocation_of(orbt: bool, args: Seq<Seq<char>>) -> InvocationView {
    if args.len() <= 1 {
        InvocationView::Animation(if orbt { AnimationType::MiniOrbit } else { AnimationType::Orbit })
    } else {
        let a = args[1];
        let second: Option<Seq<char>> = if args.len() > 2 { Some(args[2]) } else { None };
        if is_love_word(a) {
            InvocationView::Animation(if orbt { AnimationType::MiniHeart } else { AnimationType::Heart })
        } else if a == "mini-love"@ || a == "mini-luv"@ || a == "mini-heart"@ || a == "minilove"@
            || a == "miniluv"@ || a == "miniheart"@ {
            InvocationView::Animation(AnimationType::MiniHeart)
        } else if a == "mini"@ || a == "mini-orbit"@ || a == "miniorbit"@ || a == "orbt"@ {
            InvocationView::Animation(mini_animation_of(second))
        } else if a == "orbit"@ && second is Some && is_love_word(second.unwrap()) {
            InvocationView::Animation(AnimationType::Heart)
        } else if a == "orbit"@ && second is None {
            InvocationView::Animation(AnimationType::Orbit)
        } else if a == "shell"@ {
            InvocationView::Shell(second)
        } else if is_legacy_action(a) {
            InvocationView::LegacyRebuild
        } else {
            InvocationView::Cli
        }
    }
}

/// What the arguments ask for, the program name (as the file name of the
/// first argument) given apart.
pub fn invocation_for(prog_name: &str, args: &Vec<String>) -> (r: Invocation)
    ensures
        r@ == invocation_of(is_orbt_name(prog_name@), texts(args@)),
{
    let orbt = is_orbt(prog_name);
    if args.len() <= 1 {
        return Invocation::Animation(if orbt { AnimationType::MiniOrbit } else { AnimationType::Orbit });
    }
    let ac = chars_of(args[1].as_str());
    let a = ac.as_slice();
    assert(ac@ == texts(args@)[1]);
    let second: Option<&String> = if args.len() > 2 { Some(&args[2]) } else { None };
    if love_word(args[1].as_str()) {
        Invocation::Animation(if orbt { AnimationType::MiniHeart } else { AnimationType::Heart })
    } else if eq_str(a, "mini-love") || eq_str(a, "mini-luv") || eq_str(a, "mini-heart") || eq_str(
        a,
        "minilove",
    ) || eq_str(a, "miniluv") || eq_str(a, "miniheart") {
        Invocation::Animation(AnimationType::MiniHeart)
    } else if eq_str(a, "mini") || eq_str(a, "mini-orbit") || eq_str(a, "miniorbit") || eq_str(
        a,
        "orbt",
    ) {
        let v: Option<&str> = match second {
            Some(s) => Some(s.as_str()),
            None => None,
        };
        Invocation::Animation(mini_animation(v))
    } else if eq_str(a, "orbit") && second.is_some() && love_word(second.unwrap().as_str()) {
        Invocation::Animation(AnimationType::Heart)
    } else if eq_str(a, "orbit") && second.is_none() {
        Invocation::Animation(AnimationType::Orbit)
    } else if eq_str(a, "shell") {
        Invocation::Shell(
            match second {
                Some(s) => Some(s.clone()),
                None => None,
            },
        )
    } else if eq_str(a, "switch") || eq_str(a, "test") || eq_str(a, "boot") || eq_str(a, "build")
        || eq_str(a, "build-only") || eq_str(a, "dry") || eq_str(a, "clean") {
        Invocation::LegacyRebuild
    } else {
        Invocation::Cli
    }
}

//=========================================#
//            SUBCOMMANDS                  #
//=========================================#

/// What a parsed command line asks the program to do.
#[derive(Debug)]
pub enum CliAction {
    Rebuild(RebuildOptions),
    Shell(Option<String>),
    Run { query: String, gui: bool },
    Update(Option<String>),
    Sync(Option<String>),
    Secrets(Result<SecretsRequest, String>, Option<String>),
    Install(Option<String>),
    Animation(AnimationType),
}

/// The options of a shared-arguments subcommand.
pub open spec fn common_view(c: CommonRebuildArgs, action: RebuildAction, flake: Option<String>) -> OptionsView {
    OptionsView {
        action,
        host: opt_text(c.host),
        flake_dir: opt_text(flake),
        update: c.update,
        dry: c.dry || action == RebuildAction::Dry,
        ask: c.ask,
        show_trace: c.show_trace,
        extra_args: texts(c.extra_args@),
        no_chat_sync: c.no_chat_sync,
        no_ssh_prompt: c.no_ssh_prompt,
        no_hypr_reload: c.no_hypr_reload,
    }
}

/// The options of the rebuild subcommand.
pub open spec fn rebuild_view(a: RebuildArgs, flake: Option<String>) -> OptionsView {
    OptionsView {
        action: rebuild_args_action(a.test, a.vm, a.dry),
        host: opt_text(a.host),
        flake_dir: opt_text(flake),
        update: a.update,
        dry: a.dry,
        ask: a.ask,
        show_trace: a.show_trace,
        extra_args: texts(a.extra_args@),
        no_chat_sync: a.no_chat_sync,
        no_ssh_prompt: a.no_ssh_prompt,
        no_hypr_reload: a.no_hypr_reload,
    }
}

/// Turns a parsed command line into what it asks for. The rebuild-like
/// subcommands become rebuild options (build-only builds; dry sets the dry
/// flag); clean skips the chat sync, SSH prompt and Hyprland reload; the
/// animation subcommands pick their animation (the mini ones under
/// `orbt`); no subcommand plays the orbit animation.
pub fn plan_command(cli: OrbitCli, orbt: bool) -> (r: CliAction)
    ensures
        match cli.command {
            Some(Commands::Rebuild(a)) => r matches CliAction::Rebuild(o) && o@ == rebuild_view(a, cli.flake),
            Some(Commands::Build(c)) => r matches CliAction::Rebuild(o) && o@ == common_view(c, RebuildAction::Build, cli.flake),
            Some(Commands::Test(c)) => r matches CliAction::Rebuild(o) && o@ == common_view(c, RebuildAction::Test, cli.flake),
            Some(Commands::BuildOnly(c)) => r matches CliAction::Rebuild(o) && o@ == common_view(c, RebuildAction::Build, cli.flake),
            Some(Commands::Dry(c)) => r matches CliAction::Rebuild(o) && o@ == common_view(c, RebuildAction::Dry, cli.flake),
            Some(Commands::Clean { dry, ask, extra_args }) => r matches CliAction::Rebuild(o) && o@ == (OptionsView {
                action: RebuildAction::Clean,
                host: None,
                flake_dir: opt_text(cli.flake),
                update: false,
                dry,
                ask,
                show_trace: false,
                extra_args: texts(extra_args@),
                no_chat_sync: true,
                no_ssh_prompt: true,
                no_hypr_reload: true,
            }),
            Some(Commands::Shell { shell }) => r matches CliAction::Shell(s) && opt_text(s) == opt_text(shell),
            Some(Commands::Run { query }) => r matches CliAction::Run { query: q, gui } && q@ == query@ && !gui,
            Some(Commands::RunGui { query }) => r matches CliAction::Run { query: q, gui } && q@ == query@ && gui,
            Some(Commands::Update) => r matches CliAction::Update(f) && opt_text(f) == opt_text(cli.flake),
            Some(Commands::Sync) => r matches CliAction::Sync(f) && opt_text(f) == opt_text(cli.flake),
            Some(Commands::Secrets { cmd }) => r matches CliAction::Secrets(req, f) && opt_text(f)
                == opt_text(cli.flake) && secrets_outcome(cmd, req),
            Some(Commands::Install { config }) => r matches CliAction::Install(c) && opt_text(c) == opt_text(config),
            Some(Commands::Orbit) => r == CliAction::Animation(AnimationType::Orbit),
            Some(Commands::Love) => r == CliAction::Animation(if orbt { AnimationType::MiniHeart } else { AnimationType::Heart }),
            Some(Commands::Mini { variant }) => r == CliAction::Animation(mini_animation_of(opt_text(variant))),
            None => r == CliAction::Animation(if orbt { AnimationType::MiniOrbit } else { AnimationType::Orbit }),
        },
{
    let flake = cli.flake;
    match cli.command {
        Some(Commands::Rebuild(a)) => CliAction::Rebuild(a.into_options(flake)),
        Some(Commands::Build(c)) => CliAction::Rebuild(c.into_options(RebuildAction::Build, flake)),
        Some(Commands::Test(c)) => CliAction::Rebuild(c.into_options(RebuildAction::Test, flake)),
        Some(Commands::BuildOnly(c)) => CliAction::Rebuild(c.into_options(RebuildAction::Build, flake)),
        Some(Commands::Dry(c)) => CliAction::Rebuild(c.into_options(RebuildAction::Dry, flake)),
        Some(Commands::Clean { dry, ask, extra_args }) => CliAction::Rebuild(clean_options(dry, ask, extra_args, flake)),
        Some(Commands::Shell { shell }) => CliAction::Shell(shell),
        Some(Commands::Run { query }) => CliAction::Run { query, gui: false },
        Some(Commands::RunGui { query }) => CliAction::Run { query, gui: true },
        Some(Commands::Update) => CliAction::Update(flake),
        Some(Commands::Sync) => CliAction::Sync(flake),
        Some(Commands::Secrets { cmd }) => CliAction::Secrets(handle_secrets_command(cmd), flake),
        Some(Commands::Install { config }) => CliAction::Install(config),
        Some(Commands::Orbit) => CliAction::Animation(AnimationType::Orbit),
        Some(Commands::Love) => CliAction::Animation(if orbt { AnimationType::MiniHeart } else { AnimationType::Heart }),
        Some(Commands::Mini { variant }) => {
            let v: Option<&str> = match &variant {
                Some(s) => Some(s.as_str()),
                None => None,
            };
            CliAction::Animation(mini_animation(v))
        },
        None => CliAction::Animation(if orbt { AnimationType::MiniOrbit } else { AnimationType::Orbit }),
    }
}

/// The flags of the rebuild subcommand choose its action: `-t` a test build
/// (before all others), else `-v` a VM, else `-d` a dry run, else a switch;
/// and a `-d` always makes the rebuild a dry run, whatever else is asked.
pub proof fn law_rebuild_flags_choose_action(a: RebuildArgs, flake: Option<String>)
    ensures
        a.test ==> rebuild_view(a, flake).action == RebuildAction::Test,
        !a.test && a.vm ==> rebuild_view(a, flake).action == RebuildAction::Vm,
        !a.test && !a.vm && a.dry ==> rebuild_view(a, flake).action == RebuildAction::Dry,
        !a.test && !a.vm && !a.dry ==> rebuild_view(a, flake).action == RebuildAction::Switch,
        a.dry ==> crate::rebuild::is_dry_run(rebuild_view(a, flake)),
        !a.dry ==> rebuild_view(a, flake).action != RebuildAction::Dry,
{
}

} // verus!
