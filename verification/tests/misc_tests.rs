use base64::Engine;
use orbit::chats::{read_transcript, conversation_title, default_conversation_title, trajectory_summaries, transcript_title_of, ConversationRecord, TranscriptLine, conversation_meta};
use orbit::encoding::{encode_base64, uuid_v5_dns};
use orbit::install::{clone_destination, is_config_dir_name, is_remote_config, sync_choice, SyncChoice, git_command};
use orbit::proto::{parse_proto, ProtoFieldsExt, encode_field_bytes, make_ws_info, make_timestamp};
use orbit::secrets::{age_encrypt_args, key_file_mode, secret_kind, secret_steps, SecretKind, SecretStep};
use orbit::selection::{
    attr_from_search_key, parse_selection, prioritize_exact_matches, recent_first_order, run_plan,
    search_result_from_nix, nix_search_results, SearchResult,
};
use orbit::shell::{current_shell_from, menu_choice, normalize_shell_name, normalize_lowercased_shell_name, shell_launch_command, shell_request, MenuChoice, ShellRequest};
use orbit::ssh::{default_ssh_archive, has_ssh_keys_in, is_private_key_file};
use orbit::text::path_join;
use orbit::util::{confirm_answer, hostname_from, os_release_is_nixos, target_user_info, target_username};

fn s(v: &str) -> String {
    v.to_string()
}

#[test]
fn selection_tokens_ranges_and_bounds() {
    assert_eq!(parse_selection("1", 5), vec![0]);
    assert_eq!(parse_selection("1 2 3", 5), vec![0, 1, 2]);
    assert_eq!(parse_selection("1-3, 5", 5), vec![0, 1, 2, 4]);
    assert_eq!(parse_selection("3-1", 5), vec![0, 1, 2]);
    assert_eq!(parse_selection("2,2 2-2", 5), vec![1]);
    assert_eq!(parse_selection("0 6 9-12", 5), Vec::<usize>::new());
    assert_eq!(parse_selection("4-99999999999999999999", 5), Vec::<usize>::new());
    assert_eq!(parse_selection("4-18446744073709551615", 5), vec![3, 4]);
    assert_eq!(parse_selection("+2 a -1 1-2-3 2-", 5), vec![1]);
    assert_eq!(parse_selection("", 5), Vec::<usize>::new());
    assert_eq!(parse_selection("5 1\t3", 5), vec![0, 2, 4]);
}

fn result(attr: Option<&str>, main: Option<&str>) -> SearchResult {
    SearchResult {
        package_attr_name: attr.map(s),
        package_pname: None,
        package_pversion: None,
        package_description: None,
        package_main_program: main.map(s),
        package_programs: None,
    }
}

#[test]
fn exact_matches_come_first_in_order() {
    let rs = vec![result(Some("sl2"), None), result(Some("sl"), Some("a")), result(None, None), result(Some("sl"), Some("b"))];
    let out = prioritize_exact_matches(rs, "sl");
    let names: Vec<Option<&str>> = out.iter().map(|r| r.package_main_program.as_deref()).collect();
    assert_eq!(names, vec![Some("a"), Some("b"), None, None]);
    assert_eq!(out[2].package_attr_name.as_deref(), Some("sl2"));
}

#[test]
fn search_keys_and_nix_results() {
    assert_eq!(attr_from_search_key("legacyPackages.x86_64-linux.sl"), "sl");
    assert_eq!(attr_from_search_key("sl"), "sl");
    assert_eq!(attr_from_search_key("a."), "");
    let r = search_result_from_nix("packages.x.hello", None, Some(s("1.0")), None);
    assert_eq!(r.package_attr_name.as_deref(), Some("hello"));
    assert_eq!(r.package_pname.as_deref(), Some("hello"));
    assert_eq!(r.package_pversion.as_deref(), Some("1.0"));
}

#[test]
fn run_plans() {
    let rs = vec![result(Some("sl"), None), result(None, None), result(Some("zen"), Some("zen-browser"))];
    let p = run_plan(&rs, &vec![2, 0], true);
    assert_eq!(p.attrs, vec![s("zen"), s("sl")]);
    assert_eq!(p.program.as_deref(), Some("zen-browser"));
    assert_eq!(p.argv, vec![s("nix-shell"), s("-p"), s("nixpkgs#zen"), s("nixpkgs#sl"), s("--run"), s("zen-browser")]);
    let p = run_plan(&rs, &vec![1], false);
    assert_eq!(p.argv, vec![s("nix-shell"), s("-p"), s("nixpkgs#unknown")]);
    assert_eq!(p.program, None);
}

#[test]
fn recent_first_is_a_stable_descending_order() {
    assert_eq!(recent_first_order(&vec![5, 9, 5, -1, 9]), vec![1, 4, 0, 2, 3]);
    assert_eq!(recent_first_order(&vec![]), Vec::<usize>::new());
}

#[test]
fn titles() {
    assert_eq!(conversation_title("  hello\nworld"), Some(s("hello")));
    assert_eq!(conversation_title("x <USER_REQUEST> fix it </USER_REQUEST> y"), Some(s("fix it")));
    assert_eq!(conversation_title("<USER_REQUEST>only open"), Some(s("<USER_REQUEST>only open")));
    assert_eq!(conversation_title("   \n  "), None);
    let long = "a".repeat(100);
    assert_eq!(conversation_title(&long), Some("a".repeat(60)));
    assert_eq!(default_conversation_title("0123456789abcdef"), "Conversation 01234567");
    assert_eq!(default_conversation_title("abc"), "Conversation abc");
    let lines = vec![
        TranscriptLine { kind: Some(s("MODEL")), content: Some(s("x")) },
        TranscriptLine { kind: Some(s("USER_INPUT")), content: None },
        TranscriptLine { kind: Some(s("USER_INPUT")), content: Some(s("later")) },
    ];
    assert_eq!(transcript_title_of(&lines), None);
}

#[test]
fn transcript_lines_are_read_as_json() {
    let text = "not json\r\n{\"type\":\"MODEL\",\"content\":5}\n{\"type\":\"USER_INPUT\",\"content\":\"<USER_REQUEST>\\n  Fix the build\\nplease</USER_REQUEST>\"}\n";
    let lines = read_transcript(text);
    assert_eq!(lines.len(), 2);
    assert_eq!(lines[0].kind, Some(s("MODEL")));
    assert_eq!(lines[0].content, None);
    assert_eq!(lines[1].kind, Some(s("USER_INPUT")));
    assert_eq!(transcript_title_of(&lines), Some(s("Fix the build")));
    let rec = ConversationRecord { cid: s("abcdefghij"), mtime_secs: 1, blob: None, transcript: Some(s(text)) };
    let (payload, n) = trajectory_summaries(&vec![rec]).expect("fits");
    assert_eq!(n, 1);
    let top = base64::engine::general_purpose::STANDARD.decode(payload).unwrap();
    let entry = parse_proto(parse_proto(&top).get_first_bytes(1).unwrap());
    let sub = parse_proto(entry.get_first_bytes(2).unwrap());
    let b64 = sub.get_first_string(1).unwrap();
    let summary = parse_proto(&base64::engine::general_purpose::STANDARD.decode(b64).unwrap());
    assert_eq!(summary.get_first_string(1), Some(s("Fix the build")));
}

#[test]
fn metadata_defaults_and_blob_values() {
    let m = conversation_meta("cid", &None, 7);
    assert_eq!(m.uri, "file:///etc/nixos");
    assert_eq!(m.session_id, uuid_v5_dns(b"cid"));
    assert_eq!(m.created_ts_bytes, make_timestamp(7, 0));
    assert_eq!(m.ws_bytes, make_ws_info("file:///etc/nixos", "Orbit-Nix/orbit-config", "git@github.com:Orbit-Nix/orbit-config.git", "main"));
    let mut blob = encode_field_bytes(3, b"sess");
    blob.extend(encode_field_bytes(7, b"file:///x"));
    let m = conversation_meta("cid", &Some(blob), 7);
    assert_eq!(m.session_id, "sess");
    assert_eq!(m.uri, "file:///x");
}

#[test]
fn summaries_payload_decodes_back() {
    let recs = vec![ConversationRecord { cid: s("c1"), mtime_secs: 10, blob: None, transcript: None }];
    let (text, count) = trajectory_summaries(&recs).expect("fits");
    assert_eq!(count, 1);
    let top = base64::engine::general_purpose::STANDARD.decode(text).unwrap();
    let fields = parse_proto(&top);
    let entry = parse_proto(fields.get_first_bytes(1).unwrap());
    assert_eq!(entry.get_first_string(1), Some(s("c1")));
    let sub = parse_proto(entry.get_first_bytes(2).unwrap());
    let b64 = sub.get_first_string(1).unwrap();
    let summary = parse_proto(&base64::engine::general_purpose::STANDARD.decode(b64).unwrap());
    assert_eq!(summary.get_first_string(1), Some(s("Conversation c1")));
    assert_eq!(summary.get_first_varint(2), Some(207));
    assert_eq!(summary.get_first_varint(22), Some(4));
}

#[test]
fn base64_and_uuid() {
    assert_eq!(encode_base64(b"").as_deref(), Some(""));
    assert_eq!(encode_base64(b"f").as_deref(), Some("Zg=="));
    assert_eq!(encode_base64(b"fo").as_deref(), Some("Zm8="));
    assert_eq!(encode_base64(b"foobar").as_deref(), Some("Zm9vYmFy"));
    assert_eq!(uuid_v5_dns(b"example.org"), "aad03681-8b63-5304-89e0-8ca8f49461b5");
}

#[test]
fn shell_names_and_requests() {
    assert_eq!(normalize_shell_name("END4"), Some("end4-pC"));
    assert_eq!(normalize_shell_name("Caelestia"), Some("midnight"));
    assert_eq!(normalize_shell_name("3"), Some("dms"));
    assert_eq!(normalize_shell_name("off"), Some("none"));
    assert_eq!(normalize_shell_name("xfce"), None);
    assert_eq!(normalize_lowercased_shell_name("END4"), None);
    assert!(matches!(shell_request(None), ShellRequest::Menu));
    assert!(matches!(shell_request(Some(s(" ls "))), ShellRequest::List));
    assert!(matches!(shell_request(Some(s("current"))), ShellRequest::Status));
    assert!(matches!(shell_request(Some(s("reload"))), ShellRequest::Restart));
    assert!(matches!(shell_request(Some(s("autostart"))), ShellRequest::Autostart));
    assert!(matches!(shell_request(Some(s("Midnight"))), ShellRequest::Switch("midnight")));
    match shell_request(Some(s(" kde "))) {
        ShellRequest::Unknown(n) => assert_eq!(n, "kde"),
        other => panic!("unexpected {:?}", other),
    }
    assert!(matches!(menu_choice("Q\n"), MenuChoice::Quit));
    assert!(matches!(menu_choice("\n"), MenuChoice::Quit));
    assert!(matches!(menu_choice("2\n"), MenuChoice::Switch("midnight")));
    assert!(matches!(menu_choice("9"), MenuChoice::Invalid(_)));
    assert_eq!(current_shell_from(Some(s(" dms \n"))), "dms");
    assert_eq!(current_shell_from(Some(s("  "))), "end4-pC");
    assert_eq!(current_shell_from(None), "end4-pC");
    assert_eq!(shell_launch_command("dms", false), Some(vec![s("qs"), s("-c"), s("dms")]));
    assert_eq!(shell_launch_command("dms", true), Some(vec![s("dms"), s("run")]));
    assert_eq!(shell_launch_command("midnight", true), Some(vec![s("qs"), s("-c"), s("midnight")]));
    assert_eq!(shell_launch_command("other", true), None);
}

#[test]
fn users_hosts_answers() {
    let passwd = "root:x:0:0::/root:/bin/sh\nalice:x:1001:100:Alice:/home/al:/bin/bash\r\nbob:x:abc:x::/b:/bin/sh\n";
    assert_eq!(target_username(Some(s("")), Some(s("alice"))), "alice");
    assert_eq!(target_username(None, None), "user");
    let u = target_user_info(Some(s("alice")), None, Some(s(passwd)));
    assert_eq!((u.uid, u.gid, u.home_dir.as_str()), (1001, 100, "/home/al"));
    let u = target_user_info(Some(s("bob")), None, Some(s(passwd)));
    assert_eq!((u.uid, u.gid, u.home_dir.as_str()), (1000, 100, "/b"));
    let u = target_user_info(None, Some(s("carol")), Some(s(passwd)));
    assert_eq!((u.uid, u.gid, u.home_dir.as_str()), (1000, 100, "/home/carol"));
    let u = target_user_info(Some(s("root")), None, None);
    assert_eq!(u.home_dir, "/root");
    assert_eq!(hostname_from(Some(s(" box \n")), None, None), "box");
    assert_eq!(hostname_from(Some(s("\n")), Some(s("h2\n")), None), "h2");
    assert_eq!(hostname_from(None, None, Some(s(""))), "");
    assert_eq!(hostname_from(None, None, None), "nixos");
    assert!(confirm_answer(Some(" YES\n"), false));
    assert!(!confirm_answer(Some("nope"), true));
    assert!(confirm_answer(Some("\n"), true));
    assert!(!confirm_answer(None, false));
    assert!(os_release_is_nixos("NAME=NixOS\nID=nixos\n"));
    assert!(os_release_is_nixos("ID=\"nixos\""));
    assert!(!os_release_is_nixos("ID=debian\nID_LIKE=nixos"));
}

#[test]
fn secrets_ssh_install_sync() {
    assert_eq!(secret_kind("ssh"), SecretKind::Ssh);
    assert_eq!(secret_kind("wifi"), SecretKind::Wifi);
    assert_eq!(secret_kind("all"), SecretKind::All);
    assert_eq!(secret_kind("gpg"), SecretKind::Unknown);
    assert_eq!(secret_steps("ssh"), Ok(vec![SecretStep::Ssh]));
    assert_eq!(secret_steps("wifi"), Ok(vec![SecretStep::WifiNotice]));
    assert_eq!(secret_steps("all"), Ok(vec![SecretStep::Ssh, SecretStep::WifiNotice]));
    assert_eq!(secret_steps("foo"), Err(s("Unknown secret type 'foo'. Available: ssh, wifi, all")));
    assert_eq!(age_encrypt_args("ssh", "/k.pub", true), vec![s("-R"), s("/k.pub")]);
    assert_eq!(age_encrypt_args("ssh", "/k.pub", false), vec![s("-p")]);
    assert_eq!(age_encrypt_args("pass", "/k.pub", true), vec![s("-p")]);
    assert_eq!(key_file_mode("id_ed25519.pub"), 0o644);
    assert_eq!(key_file_mode("id_ed25519"), 0o600);
    assert_eq!(key_file_mode(".pub"), 0o600);
    assert_eq!(default_ssh_archive(Some("/f"), true, true, true, true), "/f/secrets/ssh.tar.age");
    assert_eq!(default_ssh_archive(Some("/f"), false, false, true, true), "/etc/nixos/secrets/ssh.tar.age");
    assert_eq!(default_ssh_archive(None, false, false, false, true), "/orbitos/secrets/ssh.tar.age");
    assert_eq!(default_ssh_archive(None, false, false, false, false), "/etc/nixos/secrets/ssh.tar.age");
    assert!(is_private_key_file("work_key"));
    assert!(!is_private_key_file("work_key.pub"));
    assert!(!is_private_key_file("known_hosts.old"));
    assert!(has_ssh_keys_in(false, &vec![s("config"), s("mykey")]));
    assert!(!has_ssh_keys_in(false, &vec![s("config"), s("a.pub")]));
    assert!(has_ssh_keys_in(true, &vec![]));
    assert!(is_remote_config("git@github.com:x/y.git") && is_remote_config("https://x") && !is_remote_config("/home/x"));
    assert!(is_config_dir_name("NixOS") && !is_config_dir_name("nixos"));
    assert_eq!(clone_destination(true, "/home/u"), "/home/u/.cache/orbitos");
    assert_eq!(clone_destination(false, "/home/u"), "/orbitos");
    assert_eq!(sync_choice(" 2\n"), SyncChoice::OverwriteLocal);
    assert_eq!(sync_choice("3"), SyncChoice::OverwriteRemote);
    assert_eq!(sync_choice(""), SyncChoice::Abort);
    assert_eq!(git_command("/c", &vec![s("pull")]), vec![s("git"), s("-C"), s("/c"), s("pull")]);
    assert_eq!(path_join("/a/", "b"), "/a/b");
    assert_eq!(path_join("", "b"), "b");
}

#[test]
fn nix_search_output_is_read_by_key() {
    let out = br#"{"legacyPackages.x86_64-linux.sl":{"pname":"sl","version":"5.05","description":"Steam Locomotive"},"legacyPackages.x86_64-linux.cowsay":{"version":"3.8","pname":7}}"#;
    let rs = nix_search_results(out).expect("json");
    assert_eq!(rs.len(), 2);
    assert_eq!(rs[0].package_attr_name, Some(s("cowsay")));
    assert_eq!(rs[0].package_pname, Some(s("cowsay")));
    assert_eq!(rs[0].package_pversion, Some(s("3.8")));
    assert_eq!(rs[0].package_description, None);
    assert_eq!(rs[1].package_attr_name, Some(s("sl")));
    assert_eq!(rs[1].package_pname, Some(s("sl")));
    assert_eq!(rs[1].package_description, Some(s("Steam Locomotive")));
    assert!(rs[1].package_main_program.is_none());
    assert_eq!(nix_search_results(b"[1, 2]").map(|v| v.len()), Some(0));
    assert!(nix_search_results(b"not json").is_none());
}
