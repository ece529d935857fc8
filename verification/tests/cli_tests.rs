use orbit::animation::AnimationType;
use orbit::cli::{parse_flexible_rebuild_args, CommonRebuildArgs, Commands, OrbitCli, RebuildArgs, SecretsCommands};
use orbit::dispatch::{invocation_for, is_orbt, plan_command, CliAction, Invocation};
use orbit::rebuild::{
    clean_command, display_action, flake_update_command, hyprland_reload_command, nh_os_command,
    offers_ssh_restore, reloads_hyprland, vm_build_command, RebuildAction, RebuildOptions,
    decimal_string,
};
use orbit::secrets::{handle_secrets_command, SecretStep, SecretsAction};

fn args(v: &[&str]) -> Vec<String> {
    v.iter().map(|s| s.to_string()).collect()
}

#[test]
fn flexible_args_read_action_flags_and_host() {
    let o = parse_flexible_rebuild_args(&args(&["test", "-u", "myhost", "--ask", "extra"]), None);
    assert_eq!(o.action, RebuildAction::Test);
    assert!(o.update && o.ask && !o.dry);
    assert_eq!(o.host.as_deref(), Some("myhost"));
    assert_eq!(o.extra_args, vec!["extra".to_string()]);
    assert_eq!(o.flake_dir, None);
}

#[test]
fn flexible_args_dry_turns_into_dry_run_except_clean() {
    let o = parse_flexible_rebuild_args(&args(&["switch", "-d"]), None);
    assert_eq!(o.action, RebuildAction::Dry);
    assert!(o.dry);
    let o = parse_flexible_rebuild_args(&args(&["clean", "--dry"]), None);
    assert_eq!(o.action, RebuildAction::Clean);
    assert!(o.dry);
}

#[test]
fn flexible_args_flake_forms() {
    let o = parse_flexible_rebuild_args(&args(&["-f", "/etc/nixos", "build"]), Some("/x".to_string()));
    assert_eq!(o.flake_dir.as_deref(), Some("/etc/nixos"));
    assert_eq!(o.action, RebuildAction::Build);
    let o = parse_flexible_rebuild_args(&args(&["--flake=--flake=/a"]), None);
    assert_eq!(o.flake_dir.as_deref(), Some("/a"));
    // a trailing -f without a value leaves the given flake directory
    let o = parse_flexible_rebuild_args(&args(&["--flake"]), Some("/x".to_string()));
    assert_eq!(o.flake_dir.as_deref(), Some("/x"));
}

#[test]
fn flexible_args_unknown_flags_and_second_word_are_extra() {
    let o = parse_flexible_rebuild_args(&args(&["--impure", "h1", "h2", "vm"]), None);
    assert_eq!(o.action, RebuildAction::Vm);
    assert_eq!(o.host.as_deref(), Some("h1"));
    assert_eq!(o.extra_args, args(&["--impure", "h2"]));
    let o = parse_flexible_rebuild_args(&args(&["--show-trace", "--no-chat-sync", "--no-ssh-prompt", "--no-hypr-reload"]), None);
    assert!(o.show_trace && o.no_chat_sync && o.no_ssh_prompt && o.no_hypr_reload);
}

#[test]
fn default_options_are_a_plain_switch() {
    let o = RebuildOptions::default();
    assert_eq!(o.action, RebuildAction::Switch);
    assert!(o.host.is_none() && o.flake_dir.is_none() && o.extra_args.is_empty());
    assert!(!o.update && !o.dry && !o.ask && !o.show_trace);
}

#[test]
fn action_names_and_predicates() {
    assert_eq!(RebuildAction::Switch.as_str(), "switch");
    assert_eq!(RebuildAction::Test.as_str(), "test");
    assert_eq!(RebuildAction::Build.as_str(), "boot");
    assert_eq!(RebuildAction::Vm.as_str(), "build-vm");
    assert_eq!(RebuildAction::Dry.as_str(), "switch");
    assert_eq!(RebuildAction::Clean.as_str(), "clean");
    assert!(RebuildAction::Dry.is_dry() && !RebuildAction::Switch.is_dry());
    assert!(RebuildAction::Clean.is_clean() && !RebuildAction::Vm.is_clean());
    assert!(RebuildAction::Vm.is_vm() && !RebuildAction::Test.is_vm());
}

#[test]
fn command_lines() {
    let mut o = RebuildOptions::default();
    o.action = RebuildAction::Clean;
    o.dry = true;
    o.extra_args = args(&["--keep", "3"]);
    assert_eq!(clean_command(&o), args(&["nh", "clean", "all", "--dry", "--keep", "3"]));

    assert_eq!(flake_update_command("/f", "alice", false), args(&["sudo", "nix", "flake", "update", "--flake", "/f"]));
    assert_eq!(flake_update_command("/f", "root", false), args(&["nix", "flake", "update", "--flake", "/f"]));
    assert_eq!(flake_update_command("/f", "alice", true), args(&["nix", "flake", "update", "--flake", "/f"]));

    let mut o = RebuildOptions::default();
    o.action = RebuildAction::Vm;
    o.show_trace = true;
    assert_eq!(vm_build_command(&o, "/f", "h"), args(&["nixos-rebuild", "build-vm", "--flake", "/f#h", "--show-trace"]));

    let mut o = RebuildOptions::default();
    o.action = RebuildAction::Dry;
    o.ask = true;
    assert_eq!(nh_os_command(&o, "/f", "h"), args(&["nh", "os", "switch", "/f", "-H", "h", "--dry", "--ask"]));
    assert_eq!(display_action(&o), "switch (dry-run)");
    assert!(!offers_ssh_restore(&o) && !reloads_hyprland(&o));

    let mut o = RebuildOptions::default();
    o.action = RebuildAction::Test;
    assert_eq!(display_action(&o), "test");
    assert!(offers_ssh_restore(&o) && reloads_hyprland(&o));
    o.no_hypr_reload = true;
    assert!(!reloads_hyprland(&o));
}

#[test]
fn hyprland_reload_lines() {
    assert_eq!(
        hyprland_reload_command(Some("alice"), "alice", 1000),
        args(&["sudo", "-u", "alice", "env", "XDG_RUNTIME_DIR=/run/user/1000", "hyprctl", "reload"])
    );
    assert_eq!(hyprland_reload_command(Some("root"), "root", 0), args(&["hyprctl", "reload"]));
    assert_eq!(hyprland_reload_command(None, "bob", 1001), args(&["hyprctl", "reload"]));
    assert_eq!(decimal_string(0), "0");
    assert_eq!(decimal_string(4294967295), "4294967295");
}

fn common() -> CommonRebuildArgs {
    CommonRebuildArgs {
        host: Some("h".to_string()),
        update: false,
        dry: false,
        ask: false,
        show_trace: false,
        no_chat_sync: false,
        no_ssh_prompt: false,
        no_hypr_reload: false,
        extra_args: vec![],
    }
}

#[test]
fn rebuild_subcommand_flag_precedence() {
    let a = RebuildArgs {
        host: None,
        update: true,
        dry: true,
        test: false,
        vm: true,
        ask: false,
        show_trace: false,
        no_chat_sync: false,
        no_ssh_prompt: false,
        no_hypr_reload: false,
        extra_args: vec![],
    };
    let o = a.into_options(Some("/f".to_string()));
    assert_eq!(o.action, RebuildAction::Vm);
    assert_eq!(o.flake_dir.as_deref(), Some("/f"));
}

#[test]
fn plan_commands() {
    let cli = OrbitCli { command: Some(Commands::Dry(common())), flake: None };
    match plan_command(cli, false) {
        CliAction::Rebuild(o) => {
            assert_eq!(o.action, RebuildAction::Dry);
            assert!(o.dry);
            assert_eq!(o.host.as_deref(), Some("h"));
        }
        other => panic!("unexpected {:?}", other),
    }
    let cli = OrbitCli { command: Some(Commands::Clean { dry: false, ask: true, extra_args: vec![] }), flake: None };
    match plan_command(cli, false) {
        CliAction::Rebuild(o) => {
            assert_eq!(o.action, RebuildAction::Clean);
            assert!(o.ask && o.no_chat_sync && o.no_ssh_prompt && o.no_hypr_reload);
        }
        other => panic!("unexpected {:?}", other),
    }
    let cli = OrbitCli { command: Some(Commands::Love), flake: None };
    assert!(matches!(plan_command(cli, true), CliAction::Animation(AnimationType::MiniHeart)));
    let cli = OrbitCli { command: Some(Commands::Mini { variant: Some("orbit".to_string()) }), flake: None };
    assert!(matches!(plan_command(cli, false), CliAction::Animation(AnimationType::MiniOrbit)));
    let cli = OrbitCli { command: None, flake: None };
    assert!(matches!(plan_command(cli, false), CliAction::Animation(AnimationType::Orbit)));
    let cli = OrbitCli { command: Some(Commands::RunGui { query: "zen".to_string() }), flake: None };
    assert!(matches!(plan_command(cli, false), CliAction::Run { gui: true, .. }));
}

#[test]
fn secrets_defaults() {
    let r = handle_secrets_command(SecretsCommands::Store { secret_type: None, encryption: None }).unwrap();
    assert_eq!(r.steps, vec![SecretStep::Ssh]);
    assert_eq!(r.action, SecretsAction::Store);
    assert_eq!(r.secret_type, "ssh");
    assert_eq!(r.encryption, "pass");
    let r = handle_secrets_command(SecretsCommands::Restore {
        secret_type: Some("wifi".to_string()),
        encryption: Some("ssh".to_string()),
        archive: Some("/a".to_string()),
    })
    .unwrap();
    assert_eq!(r.steps, vec![SecretStep::WifiNotice]);
    assert_eq!(r.action, SecretsAction::Restore);
    assert_eq!(r.secret_type, "wifi");
    assert_eq!(r.archive.as_deref(), Some("/a"));
    let r = handle_secrets_command(SecretsCommands::Store { secret_type: Some("all".to_string()), encryption: None }).unwrap();
    assert_eq!(r.steps, vec![SecretStep::Ssh, SecretStep::WifiNotice]);
    let e = handle_secrets_command(SecretsCommands::Store { secret_type: Some("foo".to_string()), encryption: None });
    assert_eq!(e.unwrap_err(), "Unknown secret type 'foo'. Available: ssh, wifi, all");
}

#[test]
fn invocations() {
    assert!(is_orbt("orbt") && is_orbt("/usr/bin/orbt") && !is_orbt("orbit"));
    assert!(matches!(invocation_for("orbit", &args(&["orbit"])), Invocation::Animation(AnimationType::Orbit)));
    assert!(matches!(invocation_for("orbt", &args(&["orbt"])), Invocation::Animation(AnimationType::MiniOrbit)));
    assert!(matches!(invocation_for("orbit", &args(&["orbit", "<3"])), Invocation::Animation(AnimationType::Heart)));
    assert!(matches!(invocation_for("orbt", &args(&["orbt", "love"])), Invocation::Animation(AnimationType::MiniHeart)));
    assert!(matches!(invocation_for("orbit", &args(&["orbit", "mini", "heart"])), Invocation::Animation(AnimationType::MiniHeart)));
    assert!(matches!(invocation_for("orbit", &args(&["orbit", "mini", "x"])), Invocation::Animation(AnimationType::MiniOrbit)));
    assert!(matches!(invocation_for("orbit", &args(&["orbit", "orbit"])), Invocation::Animation(AnimationType::Orbit)));
    assert!(matches!(invocation_for("orbit", &args(&["orbit", "orbit", "luv"])), Invocation::Animation(AnimationType::Heart)));
    assert!(matches!(invocation_for("orbit", &args(&["orbit", "orbit", "x"])), Invocation::Cli));
    assert!(matches!(invocation_for("orbit", &args(&["orbit", "boot"])), Invocation::LegacyRebuild));
    assert!(matches!(invocation_for("orbit", &args(&["orbit", "rebuild"])), Invocation::Cli));
    match invocation_for("orbit", &args(&["orbit", "shell", "dms"])) {
        Invocation::Shell(Some(s)) => assert_eq!(s, "dms"),
        other => panic!("unexpected {:?}", other),
    }
}
