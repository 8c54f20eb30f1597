use mganga::processes::{display_name, group_processes, ProcessSample};
use mganga::proc_control::{guard_protected, is_protected_process, process_base_name};
use mganga::shield::{self, ServiceQuery, ShieldStatus};
use mganga::unblock::{self, blacklist_paths, domains_in, UnblockStatus};

#[test]
fn guard_refuses_protected_process() {
    assert!(is_protected_process("lsass"));
    assert!(is_protected_process("mganga-broker"));
    assert!(!is_protected_process("spotify"));

    // A process resolved to a protected name is refused by every operation's
    // guard, and so is one whose name could not be resolved.
    let explorer = process_base_name(r"C:\Windows\Explorer.EXE");
    assert_eq!(explorer, "explorer");
    assert_eq!(guard_protected(Some(&explorer)), Err("protected".to_string()));
    assert_eq!(guard_protected(None), Err("protected".to_string()));
    assert_eq!(guard_protected(Some("spotify")), Ok(()));
}

#[test]
fn base_names_drop_every_trailing_exe() {
    assert_eq!(process_base_name(r"C:\Program Files\App\App.exe"), "app");
    assert_eq!(process_base_name("weird.exe.exe"), "weird");
    assert_eq!(process_base_name(r"C:\x\noext"), "noext");
}

#[test]
fn finds_every_blacklist_path_and_ignores_the_rest() {
    let one = blacklist_paths(
        r"C:\GoodbyeDPI\goodbyedpi.exe -e 2 --port 2053 --blacklist C:\GoodbyeDPI\d.txt",
    );
    assert_eq!(one, vec![r"C:\GoodbyeDPI\d.txt".to_string()]);

    let two = blacklist_paths(r"x.exe --blacklist a.txt -e 2 --blacklist b.txt");
    assert_eq!(two, vec!["a.txt".to_string(), "b.txt".to_string()]);

    // No list means no claim about scope.
    assert!(blacklist_paths(r"C:\GoodbyeDPI\goodbyedpi.exe -5").is_empty());
    // A trailing flag with no value must not panic.
    assert!(blacklist_paths("x.exe --blacklist").is_empty());
}

#[test]
fn blacklist_flags_match_in_any_case_across_any_whitespace() {
    let got = blacklist_paths("x.exe\t--BlackList\n a.txt   --blacklist --blacklist");
    assert_eq!(got, vec!["a.txt".to_string(), "--blacklist".to_string()]);
}

#[test]
fn reads_domains_skipping_blanks_and_comments() {
    let got = domains_in("discord.com\n\n# a comment\n  discord.gg  \n");
    assert_eq!(got, vec!["discord.com".to_string(), "discord.gg".to_string()]);
    // Windows line endings are trimmed away with the rest.
    assert_eq!(domains_in("a.com\r\nb.com\r\n"), vec!["a.com".to_string(), "b.com".to_string()]);
}

#[test]
fn unblock_absent_service_is_a_state_not_an_error() {
    let s = unblock::status(ServiceQuery::Absent, &[]).expect("absent service must not error");
    assert!(!s.installed);
    assert!(!s.running);
    assert!(!s.healthy);
    assert!(s.config.is_none());
    assert!(s.domains.is_empty());
}

#[test]
fn shield_absent_service_is_a_state_not_an_error() {
    let s = shield::status(ServiceQuery::Absent).expect("absent service must not error");
    assert!(!s.installed);
    assert!(!s.running);
    assert!(!s.healthy);
    assert!(s.config.is_none());
}

#[test]
fn healthy_means_running_and_automatic() {
    let found = |running, code| ServiceQuery::Found {
        running,
        start_code: code,
        config: Some("goodbyedpi.exe".to_string()),
    };
    let s: ShieldStatus = shield::status(found(true, Some(2))).ok().unwrap();
    assert!(s.installed && s.healthy);
    assert_eq!(s.start_type, "auto");
    let s = shield::status(found(true, Some(3))).ok().unwrap();
    assert!(!s.healthy);
    assert_eq!(s.start_type, "manual");
    let s = shield::status(found(false, Some(2))).ok().unwrap();
    assert!(!s.healthy);
    assert_eq!(shield::status(found(true, Some(4))).ok().unwrap().start_type, "disabled");
    assert_eq!(shield::status(found(true, None)).ok().unwrap().start_type, "unknown");
    assert_eq!(shield::status(found(true, Some(7))).ok().unwrap().start_type, "unknown");
    assert_eq!(
        shield::status(ServiceQuery::Failed("service manager: denied".to_string())).err(),
        Some("service manager: denied".to_string())
    );
}

#[test]
fn unblock_lists_at_most_fifty_domains_but_counts_them_all() {
    let mut text = String::new();
    for i in 0..60 {
        text.push_str(&format!("site{i}.example\n"));
    }
    let q = ServiceQuery::Found {
        running: true,
        start_code: Some(2),
        config: Some("x.exe --blacklist a.txt --blacklist b.txt".to_string()),
    };
    let s: UnblockStatus = unblock::status(q, &[Some(text), None]).ok().unwrap();
    assert_eq!(s.domain_count, 60);
    assert_eq!(s.domains.len(), 50);
    assert_eq!(s.domains[0], "site0.example");
    assert_eq!(s.domains[49], "site49.example");
    assert!(s.healthy);

    // Without a configuration there is no claim about scope.
    let q = ServiceQuery::Found { running: true, start_code: Some(3), config: None };
    let s = unblock::status(q, &[Some("a.com".to_string())]).ok().unwrap();
    assert_eq!(s.domain_count, 0);
    assert!(s.domains.is_empty());
    assert!(!s.healthy);
    assert!(UnblockStatus::absent().domains.is_empty());
}

#[test]
fn processes_sharing_a_name_are_one_row_with_summed_costs() {
    let s = |pid: u32, name: &str, memory: u64| ProcessSample { pid, name: name.to_string(), memory };
    let rows = group_processes(&[
        s(0, "Idle", 1_000_000),
        s(10, "steamwebhelper.exe", 100),
        s(11, "Steam.exe", 50),
        s(12, "STEAMWEBHELPER.EXE", 200),
        s(13, "steam.EXE", 7),
    ]);
    assert_eq!(rows.len(), 2);
    assert_eq!(rows[0].name, "steamwebhelper");
    assert_eq!((rows[0].memory, rows[0].count), (300, 2));
    assert_eq!(rows[0].pids, vec![10, 12]);
    assert_eq!(rows[1].name, "Steam");
    assert_eq!((rows[1].memory, rows[1].count), (57, 2));
    assert_eq!(display_name("a.exe.exe"), "a.exe");
    assert_eq!(display_name("App.Exe"), "App.Exe");
}
