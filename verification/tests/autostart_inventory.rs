use mganga::autostart::{
    approved_state, extract_exe, extract_exe_would_panic, folder_entry, logon_tasks, run_entry,
    run_sources, scan, service_entry, sort_entries, task_entry, toggle_for, AutostartEntry,
};
use mganga::judge::{humanize_days, judge, judge_process, Rule};
use mganga::usage::{collect, usage_key_of, Usage, UsageMap};

fn entry(kind: &str, name: &str) -> AutostartEntry {
    AutostartEntry { kind: kind.to_string(), name: name.to_string(), ..Default::default() }
}

#[test]
fn startup_approved_state_reads_the_first_byte() {
    assert!(approved_state(None));
    assert!(approved_state(Some(&[])));
    assert!(approved_state(Some(&[0x02, 0, 0, 0])));
    assert!(approved_state(Some(&[0x06])));
    assert!(!approved_state(Some(&[0x03, 1, 2])));
    assert!(!approved_state(Some(&[0x01])));
}

#[test]
fn run_keys_pair_with_their_startup_approved_twins() {
    let sources = run_sources();
    assert_eq!(sources.len(), 6);
    assert!(sources[0].user);
    assert_eq!(sources[0].label, "Run key (user)");
    assert_eq!(
        sources[4].approved_path.as_deref(),
        Some(r"Software\Microsoft\Windows\CurrentVersion\Explorer\StartupApproved\Run32")
    );
    assert!(sources[5].approved_path.is_none());

    let e = run_entry(&sources[2], "Spotify".into(), "spotify.exe /min".into(), Some(&[3, 0]), None)
        .unwrap();
    assert_eq!(e.source_detail, r"HKLM\Software\Microsoft\Windows\CurrentVersion\Run");
    assert!(!e.enabled);
    assert_eq!(e.kind, "run");
    assert_eq!(e.scope, "machine");
    let t = e.toggle.unwrap();
    assert_eq!(t.hive, "HKLM");
    assert_eq!(t.value_name, "Spotify");

    // The unnamed default value is skipped; RunOnce has no switch.
    assert!(run_entry(&sources[0], String::new(), "x".into(), None, None).is_none());
    let once = run_entry(&sources[1], "Setup".into(), "x".into(), Some(&[3]), None).unwrap();
    assert!(once.enabled && once.toggle.is_none());
    // Never a switch the guard would refuse.
    let sec = run_entry(&sources[0], "SecurityHealth".into(), "x".into(), None, None).unwrap();
    assert!(sec.toggle.is_none());
    assert!(toggle_for(true, "p", "WindowsDefender").is_none());
}

#[test]
fn startup_folders_skip_desktop_ini() {
    assert!(folder_entry(true, r"C:\S", r"C:\S\Desktop.INI", "Desktop.INI", None, None).is_none());
    let e = folder_entry(false, r"C:\S", r"C:\S\MEGAsync.lnk", "MEGAsync.lnk", Some("MEGAsync".into()), None)
        .unwrap();
    assert_eq!(e.name, "MEGAsync");
    assert_eq!(e.source, "Startup folder (all users)");
    assert_eq!(e.scope, "machine");
    assert!(e.enabled);
    assert_eq!(e.toggle.unwrap().value_name, "MEGAsync.lnk");
}

#[test]
fn services_count_only_when_automatic_win32() {
    let e = service_entry("WSearch", Some(2), Some(0x10), Some(1), Some("@%SystemRoot%\\x.dll,-1".into()), Some("x.exe".into()), None)
        .unwrap();
    assert_eq!(e.name, "WSearch");
    assert_eq!(e.source, "Service (automatic, delayed)");
    assert_eq!(e.source_detail, r"HKLM\SYSTEM\CurrentControlSet\Services\WSearch");
    let e = service_entry("Foo", Some(2), Some(0x20), None, Some("Foo Service".into()), None, None).unwrap();
    assert_eq!(e.name, "Foo Service");
    assert_eq!(e.source, "Service (automatic)");
    assert_eq!(e.command, "");
    assert!(service_entry("Drv", Some(2), Some(1), None, None, None, None).is_none());
    assert!(service_entry("Man", Some(3), Some(0x10), None, None, None, None).is_none());
    assert!(service_entry("Missing", None, Some(0x10), None, None, None, None).is_none());
}

#[test]
fn executables_come_out_of_command_lines() {
    let root = r"C:\Windows";
    let ex = |c: &str| {
        assert!(!extract_exe_would_panic(c, c.trim(), root));
        extract_exe(c, c.trim(), root)
    };
    assert_eq!(ex(r#""C:\Program Files\App\app.exe" --tray"#), Some(r"C:\Program Files\App\app.exe".into()));
    assert_eq!(ex(r"C:\Tools\X.EXE /s"), Some(r"C:\Tools\X.EXE".into()));
    assert_eq!(ex(r"system32\svchost.exe -k netsvcs"), Some(r"C:\Windows\system32\svchost.exe".into()));
    assert_eq!(ex(r"\??\C:\Drivers\d.exe"), Some(r"C:\Drivers\d.exe".into()));
    assert_eq!(ex(r"\SystemRoot\System32\smss.exe"), Some(r"C:\Windows\System32\smss.exe".into()));
    assert_eq!(ex(r"rundll32 shell32.dll"), None);
    assert_eq!(ex(""), None);
    assert_eq!(ex("just words"), None);
}

#[test]
fn logon_tasks_come_from_schtasks_csv() {
    let lines = [
        "\"HostName\",\"TaskName\",\"Schedule Type\",\"Task To Run\",\"Scheduled Task State\"\r\n",
        "\"PC\",\"\\Vendor\\Updater Logon\",\"At logon time\",\"  C:\\V\\up.exe /q \",\"Enabled\"\r\n",
        "\"PC\",\"\\Daily\",\"Daily\",\"d.exe\",\"Enabled\"\r\n",
        "\"HostName\",\"TaskName\",\"Schedule Type\",\"Task To Run\",\"Scheduled Task State\"\r\n",
        "\"PC\",\"\\Other\\Sync\",\"At Logon\",\"s.exe\",\"Disabled\"\r\n",
        "\"PC\",\"\",\"At logon time\",\"e.exe\",\"Enabled\"\r\n",
    ];
    let csv: String = lines.concat();
    let rows = logon_tasks(csv.as_bytes());
    assert_eq!(rows.len(), 2);
    assert_eq!(rows[0].task_name, r"\Vendor\Updater Logon");
    assert_eq!(rows[0].command, r"C:\V\up.exe /q");
    let rows: Vec<_> = rows.into_iter().map(|r| task_entry(r, None)).collect();
    assert_eq!(rows[0].name, "Updater Logon");
    assert!(rows[0].enabled);
    assert_eq!(rows[1].name, "Sync");
    assert!(!rows[1].enabled);
    assert_eq!(rows[1].kind, "task");
    // Without the needed columns there are no tasks.
    assert!(logon_tasks(b"\"a\",\"b\"\r\n\"1\",\"2\"\r\n").is_empty());
    assert!(logon_tasks(b"").is_empty());
}

#[test]
fn entries_sort_by_kind_then_name_and_keep_ties_in_order() {
    let mut a = entry("service", "Zed");
    a.command = "first".into();
    let mut b = entry("service", "zed");
    b.command = "second".into();
    let sorted = sort_entries(vec![a, entry("task", "b"), b, entry("run", "Yak"), entry("folder", "c"), entry("run", "apple")]);
    let got: Vec<(&str, &str)> = sorted.iter().map(|e| (e.kind.as_str(), e.name.as_str())).collect();
    assert_eq!(
        got,
        vec![("run", "apple"), ("run", "Yak"), ("folder", "c"), ("task", "b"), ("service", "Zed"), ("service", "zed")]
    );
    assert_eq!(sorted[4].command, "first");
    assert_eq!(sorted[5].command, "second");
}

fn rule(exe: &[&str], name_contains: &[&str], category: &str, verdict: &str, reason: &str) -> Rule {
    Rule {
        exe: exe.iter().map(|s| s.to_string()).collect(),
        name_contains: name_contains.iter().map(|s| s.to_string()).collect(),
        publisher_contains: vec![],
        kind: None,
        category: category.into(),
        verdict: verdict.into(),
        reason: reason.into(),
    }
}

#[test]
fn scan_adds_usage_then_verdicts_then_order() {
    let rules = vec![rule(&["steam.exe"], &[], "game-launcher", "safe-to-disable", "A launcher.")];
    let mut usage = UsageMap::new();
    usage.record("steam.exe".to_string(), Usage { run_count: 0, last_run_days: Some(3) });
    usage.record("megasync".to_string(), Usage { run_count: 12, last_run_days: Some(200) });
    let mut steam = entry("run", "Steam");
    steam.command = r#""C:\Steam\steam.exe" -silent"#.into();
    let mut mega = entry("folder", "MEGAsync");
    mega.source = "Startup folder (user)".into();
    mega.publisher = Some("Mega Ltd".into());
    let out = scan(
        vec![mega, steam],
        &[None, Some(r"C:\Steam\steam.exe".to_string())],
        &usage,
        &rules,
    );
    assert_eq!(out[0].name, "Steam");
    assert_eq!(out[0].verdict, "safe-to-disable");
    assert_eq!(out[0].open_count, None);
    assert_eq!(out[0].last_opened_days, Some(3));
    assert_eq!(out[1].name, "MEGAsync");
    assert_eq!(out[1].open_count, Some(12));
    assert_eq!(out[1].verdict, "safe-to-disable");
    assert!(out[1].reason.ends_with("You haven't opened it in about 6 months, so it is probably not earning its place at startup."));
}

#[test]
fn protected_services_are_judged_first() {
    let mut e = entry("service", "DNS Client");
    e.source_detail = r"HKLM\SYSTEM\CurrentControlSet\Services\Dnscache".into();
    let j = judge(&e, None, None, &[]);
    assert_eq!(j.verdict, "protected");
    assert_eq!(j.category.as_deref(), Some("windows-core"));
    let mut e = entry("service", "Clipboard");
    e.source_detail = r"HKLM\SYSTEM\CurrentControlSet\Services\lsm_4aeaa".into();
    assert_eq!(judge(&e, None, None, &[]).verdict, "protected");
}

#[test]
fn processes_have_a_known_cost_when_mganga_knows_one() {
    let rules = vec![rule(&["spotify.exe"], &[], "media", "safe-to-disable", "x")];
    assert_eq!(
        judge_process("spotify", &rules),
        Some(("fine-to-stop".to_string(), "Stopping it just closes the app. Nothing is lost.".to_string()))
    );
    assert_eq!(judge_process("chrome", &rules).unwrap().0, "your-call");
    assert_eq!(judge_process("unknownthing", &rules), None);
}

#[test]
fn durations_read_as_a_person_would_say_them() {
    assert_eq!(humanize_days(0), "0 days");
    assert_eq!(humanize_days(13), "13 days");
    assert_eq!(humanize_days(14), "2 weeks");
    assert_eq!(humanize_days(60), "2 months");
    assert_eq!(humanize_days(400), "a year");
    assert_eq!(humanize_days(730), "2 years");
}

#[test]
fn user_assist_values_key_by_exe_name_or_shortcut_stem() {
    // ROT13 of "C:\Program Files\Steam\Steam.exe"
    assert_eq!(usage_key_of(r"P:\Cebtenz Svyrf\Fgrnz\Fgrnz.rkr").as_deref(), Some("steam.exe"));
    // ROT13 of "...\MEGAsync.lnk"
    assert_eq!(usage_key_of(r"{N77S5Q77}\ZRTNflap.yax").as_deref(), Some("megasync"));
    assert_eq!(usage_key_of("HRZR_PGYFRFFVBA"), None);

    let mut data = vec![0u8; 0x44];
    data[4] = 7;
    let ft: u64 = 116_444_736_000_000_000 + 10_000_000 * 86_400 * 10;
    data[0x3C..0x44].copy_from_slice(&ft.to_le_bytes());
    let values = vec![
        (r"P:\n\Fgrnz.rkr".to_string(), data.clone()),
        (r"Q:\o\fgrnz.RKR".to_string(), {
            let mut d = data.clone();
            d[4] = 2;
            d[0x3C..0x44].copy_from_slice(&(ft + 10_000_000 * 86_400 * 5).to_le_bytes());
            d
        }),
        ("fubeg".to_string(), vec![1, 2, 3]),
    ];
    let now = 86_400 * 20;
    let m = collect(&values, Some(now));
    assert_eq!(m.get("steam.exe"), Some(Usage { run_count: 7, last_run_days: Some(5) }));
    assert_eq!(m.get("fubeg"), None);
}

#[test]
fn rot13_twice_gives_back_the_name() {
    let name = r"C:\Program Files\Zed 9\Zed.exe";
    assert_eq!(mganga::usage::rot13(&mganga::usage::rot13(name)), name);
    assert_eq!(mganga::usage::rot13("Hello, World!"), "Uryyb, Jbeyq!");
}

#[test]
fn merged_evidence_does_not_depend_on_the_order_it_arrives_in() {
    let a = Usage { run_count: 3, last_run_days: None };
    let b = Usage { run_count: 9, last_run_days: Some(40) };
    let c = Usage { run_count: 1, last_run_days: Some(12) };
    let mut forward = UsageMap::new();
    for u in [a, b, c] {
        forward.record("x.exe".to_string(), u);
    }
    let mut backward = UsageMap::new();
    for u in [c, b, a] {
        backward.record("x.exe".to_string(), u);
    }
    let expected = Some(Usage { run_count: 9, last_run_days: Some(12) });
    assert_eq!(forward.get("x.exe"), expected);
    assert_eq!(backward.get("x.exe"), expected);
}

#[test]
fn usage_never_overrides_keep() {
    let rules = vec![rule(&["audio.exe"], &[], "audio-driver", "keep", "Needed for sound.")];
    let mut e = entry("run", "Audio");
    e.last_opened_days = Some(900);
    let j = judge(&e, Some(r"C:\A\audio.exe"), None, &rules);
    assert_eq!(j.verdict, "keep");
    assert_eq!(j.reason, "Needed for sound.");
}

#[test]
fn what_a_toggle_writes_reads_back() {
    assert!(approved_state(Some(&mganga::guard::make_approved_bytes(true))));
    assert!(!approved_state(Some(&mganga::guard::make_approved_bytes(false))));
}

#[test]
fn offered_switches_pass_the_guard() {
    for source in run_sources() {
        if let Some(e) = run_entry(&source, "Spotify".into(), "s.exe".into(), None, None) {
            if let Some(t) = e.toggle {
                assert_eq!(mganga::actions::check_write_target(&t.approved_path, &t.value_name), Ok(()));
            }
        }
    }
    let e = folder_entry(true, "d", "d\\x.lnk", "x.lnk", None, None).unwrap();
    let t = e.toggle.unwrap();
    assert_eq!(mganga::actions::check_write_target(&t.approved_path, &t.value_name), Ok(()));
}

#[test]
fn a_description_only_explains() {
    let e = entry("folder", "Widget");
    let ev = mganga::evidence::FileEvidence { description: Some("Widget tray helper".into()), ..Default::default() };
    let j0 = judge(&e, None, None, &[]);
    let j1 = judge(&e, None, Some(&ev), &[]);
    assert_eq!(j0.verdict, "your-call");
    assert_eq!(j1.verdict, j0.verdict);
    assert_eq!(j1.category, j0.category);
    assert_eq!(j1.reason, format!("{} It describes itself as \"Widget tray helper\".", j0.reason));
    let mut svc = entry("run", "Setup");
    svc.source = "RunOnce key (user)".into();
    let k0 = judge(&svc, None, None, &[]);
    let k1 = judge(&svc, None, Some(&ev), &[]);
    assert_eq!(k0.verdict, "keep");
    assert_eq!(k1.reason, k0.reason);
}
