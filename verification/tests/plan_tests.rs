use orbit::cli::{Commands, OrbitCli, SecretsCommands};
use orbit::dispatch::{plan_command, CliAction};
use orbit::proto::WireValue;
use orbit::rebuild::{rebuild_steps, RebuildStep};
use orbit::secrets::SecretsAction;
use orbit::selection::nh_results_to_show;
use orbit::chats::{checked_trajectory_summaries, conversation_record_title, conversation_title, ConversationRecord};
use orbit::install::{install_source, sync_steps, InstallSource, SyncChoice};
use orbit::rebuild::{nh_os_command, runs_post_build_steps, RebuildAction, RebuildOptions};
use orbit::secrets::falls_back_to_passphrase;
use orbit::selection::{prioritize_exact_matches, recent_first_order, SearchResult};
use orbit::shell::{is_no_shell, launch_checks_dms, normalize_shell_name};
use orbit::util::{choose_flake_dir, FlakeDirError};

fn s(x: &str) -> String {
    x.to_string()
}

fn result(name: &str) -> SearchResult {
    SearchResult {
        package_attr_name: Some(s(name)),
        package_pname: None,
        package_pversion: None,
        package_description: None,
        package_main_program: None,
        package_programs: None,
    }
}

#[test]
fn flake_dir_explicit_wins_or_fails() {
    let r = choose_flake_dir(Some((s("/cfg"), true)), Some((s("/env"), true)), vec![], true, true);
    assert_eq!(r.unwrap(), "/cfg");
    match choose_flake_dir(Some((s("/nope"), false)), Some((s("/env"), true)), vec![], true, true) {
        Err(e) => {
            assert!(matches!(e, FlakeDirError::Missing(_)));
            assert_eq!(e.message(), "Specified flake path does not exist: /nope");
        }
        Ok(_) => panic!("a missing explicit path is an error"),
    }
}

#[test]
fn flake_dir_search_order() {
    assert_eq!(choose_flake_dir(None, Some((s("/env"), true)), vec![(s("/w"), true)], true, true).unwrap(), "/env");
    let places = vec![(s("/a/b"), false), (s("/a"), true), (s("/"), true)];
    assert_eq!(choose_flake_dir(None, Some((s("/env"), false)), places, true, true).unwrap(), "/a");
    assert_eq!(choose_flake_dir(None, None, vec![(s("/a"), false)], true, true).unwrap(), "/orbitos");
    assert_eq!(choose_flake_dir(None, None, vec![], false, true).unwrap(), "/etc/nixos");
    match choose_flake_dir(None, None, vec![], false, false) {
        Err(e) => assert!(e.message().starts_with("Could not automatically determine flake directory")),
        Ok(_) => panic!("nothing found is an error"),
    }
}

#[test]
fn install_sources() {
    match install_source(Some("https://x/repo.git"), false, "/w", false, "w", true, "/home/u") {
        InstallSource::Clone { repo, dest } => {
            assert_eq!(repo, "https://x/repo.git");
            assert_eq!(dest, "/home/u/.cache/orbitos");
        }
        other => panic!("{:?}", other),
    }
    assert!(matches!(install_source(Some("/cfg"), true, "/w", false, "w", false, "/h"), InstallSource::Local(d) if d == "/cfg"));
    assert!(matches!(install_source(Some("/cfg"), false, "/w", true, "w", false, "/h"), InstallSource::Missing(d) if d == "/cfg"));
    assert!(matches!(install_source(None, false, "/w/NixOS", false, "NixOS", false, "/h"), InstallSource::Local(d) if d == "/w/NixOS"));
    assert!(matches!(install_source(None, false, "/w", true, "w", false, "/h"), InstallSource::Local(d) if d == "/w"));
    match install_source(None, false, "/w", false, "w", false, "/h") {
        InstallSource::Clone { repo, dest } => {
            assert_eq!(repo, "https://github.com/m-uvex/NixOS.git");
            assert_eq!(dest, "/orbitos");
        }
        other => panic!("{:?}", other),
    }
}

#[test]
fn sync_step_lists() {
    let clean = sync_steps("/cfg", false, SyncChoice::OverwriteRemote);
    assert_eq!(clean.len(), 1);
    assert_eq!(clean[0].argv, vec![s("git"), s("-C"), s("/cfg"), s("pull")]);
    assert!(clean[0].must_succeed);
    assert!(sync_steps("/cfg", true, SyncChoice::Abort).is_empty());
    let local = sync_steps("/cfg", true, SyncChoice::OverwriteLocal);
    assert_eq!(local[1].argv, vec![s("git"), s("-C"), s("/cfg"), s("reset"), s("--hard"), s("@{u}")]);
    let remote = sync_steps("/cfg", true, SyncChoice::OverwriteRemote);
    assert_eq!(remote.len(), 3);
    assert_eq!(remote[1].argv[3..], [s("commit"), s("-m"), s("orbit sync: update configuration")]);
    assert!(!remote[1].must_succeed);
    assert_eq!(remote[2].argv[3..], [s("push"), s("--force-with-lease")]);
}

#[test]
fn prioritizing_keeps_every_result() {
    let input = vec![result("a"), result("sl"), result("b"), result("sl"), result("c")];
    let out = prioritize_exact_matches(input, "sl");
    let names: Vec<String> = out.iter().map(|r| r.package_attr_name.clone().unwrap()).collect();
    assert_eq!(names, vec![s("sl"), s("sl"), s("a"), s("b"), s("c")]);
}

#[test]
fn recent_order_is_a_permutation() {
    let keys = vec![3, 3, 9, -2, 9, 0];
    let mut order = recent_first_order(&keys);
    assert_eq!(order, vec![2, 4, 0, 1, 5, 3]);
    order.sort();
    assert_eq!(order, vec![0, 1, 2, 3, 4, 5]);
}

#[test]
fn shell_names_settle() {
    for name in ["II", "Caelestia", "DMS", "off", "1", "end4-pC"] {
        let shell = normalize_shell_name(name).unwrap();
        assert_eq!(normalize_shell_name(shell), Some(shell));
    }
    assert!(is_no_shell("none"));
    assert!(!is_no_shell("None"));
    assert!(launch_checks_dms("dms"));
    assert!(!launch_checks_dms("midnight"));
}

#[test]
fn titles_are_one_short_line() {
    let t = conversation_title(&format!("{}\nsecond line", "x".repeat(80))).unwrap();
    assert_eq!(t.chars().count(), 60);
    assert!(!t.contains('\n'));
}

#[test]
fn dry_runs_only_preview() {
    let mut o = RebuildOptions::default();
    o.dry = true;
    let cmd = nh_os_command(&o, "/cfg", "host");
    assert_eq!(cmd, vec![s("nh"), s("os"), s("switch"), s("/cfg"), s("-H"), s("host"), s("--dry")]);
    assert!(!runs_post_build_steps(&o));
    o.action = RebuildAction::Dry;
    o.dry = false;
    assert!(nh_os_command(&o, "/cfg", "host").contains(&s("--dry")));
    assert!(!runs_post_build_steps(&o));
}

#[test]
fn passphrase_fallback() {
    assert!(falls_back_to_passphrase("ssh", false));
    assert!(!falls_back_to_passphrase("ssh", true));
    assert!(!falls_back_to_passphrase("pass", false));
}

#[test]
fn record_titles_and_id_cuts() {
    let rec = |cid: &str, transcript: Option<&str>| ConversationRecord {
        cid: s(cid),
        mtime_secs: 0,
        blob: None,
        transcript: transcript.map(s),
    };
    assert_eq!(conversation_record_title(&rec("0123456789", None)), Some(s("Conversation 01234567")));
    // The eighth byte falls inside "é": no default title can be cut there.
    assert_eq!(conversation_record_title(&rec("abcdefgé", None)), None);
    let t = r#"{"type":"USER_INPUT","content":"hello"}"#;
    assert_eq!(conversation_record_title(&rec("abcdefgé", Some(t))), Some(s("hello")));
}

#[test]
fn summaries_check_titles_first() {
    let rec = |cid: &str| ConversationRecord { cid: s(cid), mtime_secs: 5, blob: None, transcript: None };
    let r = checked_trajectory_summaries(&vec![rec("abcdefghij"), rec("abcdefgé"), rec("x")]);
    assert_eq!(r, Err(1));
    match checked_trajectory_summaries(&vec![rec("abcdefghij"), rec("x")]) {
        Ok(Some((text, count))) => {
            assert_eq!(count, 2);
            assert!(!text.is_empty());
        }
        other => panic!("{:?}", other),
    }
}

#[test]
fn concatenated_fields_merge_per_tag() {
    let mut a = orbit::proto::encode_field_varint(1, 7);
    a.extend(orbit::proto::encode_field_bytes(2, b"xy"));
    a.extend(orbit::proto::encode_field_varint(1, 9));
    let mut c = orbit::proto::encode_field_varint(1, 300);
    c.extend(orbit::proto::encode_field_bytes(3, b"z"));
    c.push(0x80); // a truncated key ends the rest
    let mut whole = a.clone();
    whole.extend(&c);
    let (pa, pc, pw) = (orbit::proto::parse_proto(&a), orbit::proto::parse_proto(&c), orbit::proto::parse_proto(&whole));
    assert_eq!(pw.get(&1), Some(&vec![WireValue::Varint(7), WireValue::Varint(9), WireValue::Varint(300)]));
    assert_eq!(pw.get(&2), pa.get(&2));
    assert_eq!(pw.get(&3), pc.get(&3));
    assert_eq!(pw.len(), 3);
}

#[test]
fn build_adds_to_boot_menu() {
    let mut o = RebuildOptions::default();
    o.action = RebuildAction::Build;
    assert_eq!(nh_os_command(&o, "/cfg", "h"), vec![s("nh"), s("os"), s("boot"), s("/cfg"), s("-H"), s("h")]);
    // The legacy word `boot` selects no action: it is read as the host.
    let args: Vec<String> = vec![s("boot"), s("myhost")];
    let o = orbit::cli::parse_flexible_rebuild_args(&args, None);
    assert_eq!(o.action, RebuildAction::Switch);
    assert_eq!(o.host, Some(s("boot")));
    assert_eq!(o.extra_args, vec![s("myhost")]);
}

#[test]
fn rebuild_step_order() {
    let mut o = RebuildOptions::default();
    o.update = true;
    let steps = rebuild_steps(&o, "/cfg", "h", "alice", false);
    assert_eq!(steps.len(), 5);
    assert!(matches!(&steps[0], RebuildStep::UpdateFlake(a) if a[0] == "sudo"));
    assert!(matches!(steps[1], RebuildStep::CleanBackups));
    assert!(matches!(&steps[2], RebuildStep::ApplyConfiguration(a) if a[2] == "switch"));
    assert!(matches!(steps[3], RebuildStep::OfferSshRestore));
    assert!(matches!(steps[4], RebuildStep::ReloadHyprland));
    o.update = false;
    o.action = RebuildAction::Vm;
    let steps = rebuild_steps(&o, "/cfg", "h", "root", false);
    assert_eq!(steps.len(), 2);
    assert!(matches!(&steps[0], RebuildStep::BuildVm(a) if a[3] == "/cfg#h"));
    assert!(matches!(steps[1], RebuildStep::LaunchVm));
    o.action = RebuildAction::Test;
    o.dry = true;
    o.no_hypr_reload = true;
    let steps = rebuild_steps(&o, "/cfg", "h", "root", false);
    assert_eq!(steps.len(), 2);
}

#[test]
fn nh_results_or_fallback() {
    assert!(nh_results_to_show(None, "sl").is_none());
    assert!(nh_results_to_show(Some(vec![]), "sl").is_none());
    let shown = nh_results_to_show(Some(vec![result("a"), result("sl")]), "sl").unwrap();
    assert_eq!(shown[0].package_attr_name, Some(s("sl")));
    assert_eq!(shown.len(), 2);
}

#[test]
fn secrets_commands_keep_their_choices() {
    let cli = OrbitCli {
        command: Some(Commands::Secrets {
            cmd: SecretsCommands::Restore { secret_type: Some(s("all")), encryption: Some(s("ssh")), archive: Some(s("/a.age")) },
        }),
        flake: Some(s("/cfg")),
    };
    match plan_command(cli, false) {
        CliAction::Secrets(req, flake) => {
            let req = req.unwrap();
            assert_eq!(req.steps, vec![orbit::secrets::SecretStep::Ssh, orbit::secrets::SecretStep::WifiNotice]);
            assert_eq!(req.action, SecretsAction::Restore);
            assert_eq!(req.secret_type, "all");
            assert_eq!(req.encryption, "ssh");
            assert_eq!(req.archive, Some(s("/a.age")));
            assert_eq!(flake, Some(s("/cfg")));
        }
        other => panic!("{:?}", other),
    }
}

#[test]
fn secret_file_modes() {
    assert_eq!(orbit::secrets::ssh_dir_mode(), 0o700);
    assert_eq!(orbit::secrets::archive_mode(), 0o644);
}
