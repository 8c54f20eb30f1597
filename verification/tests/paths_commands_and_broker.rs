use mganga::audit::{new_id, now_ms, AuditRecord};
use mganga::broker::{plan_request, BrokerPlan, BrokerRequest, BrokerTally};
use mganga::commands::{
    actionable_pids, autostart_record, check_autostart_request, filter_own_descendants, group_flags, newest_first,
    outcome, parse_process_action, plan_undo, process_record, undo_record, ActionTally,
    ProcessAction, ProcessMemory, WriteRoute,
};
use mganga::evidence::{authenticode, cheap, classify_location, clean_string};
use mganga::settings::{settings_or_default, with_auto_update_check, Settings};
use mganga::updater::{pending_update, update_record, update_to_announce, UpdateInfo};
use mganga::winpath::{file_name, is_relative, join, parent};

const RUN: &str = r"Software\Microsoft\Windows\CurrentVersion\Explorer\StartupApproved\Run";

#[test]
fn windows_paths_read_the_windows_way() {
    assert_eq!(file_name(r"C:\Program Files\App\app.exe").as_deref(), Some("app.exe"));
    assert_eq!(file_name("C:/tools/x.exe").as_deref(), Some("x.exe"));
    assert_eq!(file_name(r"C:\foo\").as_deref(), Some("foo"));
    assert_eq!(file_name(r"C:\foo\.").as_deref(), Some("foo"));
    assert_eq!(file_name(r"C:\foo\.."), None);
    assert_eq!(file_name(r"C:\"), None);
    assert_eq!(file_name("C:app.exe").as_deref(), Some("app.exe"));
    assert_eq!(file_name(r"\\server\share"), None);
    assert_eq!(file_name(r"\\server\share\x.exe").as_deref(), Some("x.exe"));

    assert!(!is_relative(r"C:\x"));
    assert!(!is_relative(r"\\server\share\x"));
    assert!(is_relative(r"\x"));
    assert!(is_relative("C:x"));
    assert!(is_relative(r"system32\x.exe"));

    assert_eq!(join(r"C:\Windows", r"system32\x.exe"), r"C:\Windows\system32\x.exe");
    assert_eq!(join(r"C:\Windows\", "x"), r"C:\Windows\x");
    assert_eq!(join(r"C:\Windows", r"\x"), r"C:\x");
    assert_eq!(join(r"C:\Windows", r"D:\x"), r"D:\x");
    assert_eq!(join("C:", "x"), "C:x");

    assert_eq!(parent(r"C:\Users\pat").as_deref(), Some(r"C:\Users"));
    assert_eq!(parent(r"C:\Program Files").as_deref(), Some(r"C:\"));
    assert_eq!(parent(r"C:\Users\pat\\").as_deref(), Some(r"C:\Users"));
    assert_eq!(parent(r"C:\"), None);
    assert_eq!(parent("foo").as_deref(), Some(""));
}

#[test]
fn toggles_are_checked_before_they_are_routed() {
    assert_eq!(check_autostart_request("HKCU", RUN, "Spotify"), Ok(WriteRoute::User));
    assert_eq!(check_autostart_request("HKLM", RUN, "Spotify"), Ok(WriteRoute::Machine));
    assert_eq!(check_autostart_request("HKCR", RUN, "Spotify"), Err("bad-hive".to_string()));
    assert_eq!(check_autostart_request("HKCR", RUN, "SecurityHealth"), Err("protected".to_string()));
    assert_eq!(check_autostart_request("HKCU", "Software", "SecurityHealth"), Err("bad-path".to_string()));
    let r = autostart_record("1-0".into(), 1, false, "HKCU".into(), RUN.into(), "Spotify".into(), None);
    assert_eq!(r.action, "disable-autostart");
    assert!(r.undoes.is_none());
}

fn record(id: &str, action: &str, hive: &str) -> AuditRecord {
    AuditRecord {
        id: id.into(),
        time_ms: 5,
        action: action.into(),
        hive: hive.into(),
        approved_path: RUN.into(),
        value_name: "Spotify".into(),
        old_value_hex: Some("03".into()),
        undoes: None,
        detail: None,
    }
}

#[test]
fn history_is_newest_first_and_undo_is_refused_where_it_must_be() {
    let log = vec![record("1-0", "disable-autostart", "HKCU"), record("2-1", "update", ""), record("3-2", "enable-autostart", "HKXX")];
    let again = vec![record("1-0", "disable-autostart", "HKCU"), record("2-1", "update", ""), record("3-2", "enable-autostart", "HKXX")];
    let ids: Vec<String> = newest_first(again).into_iter().map(|r| r.id).collect();
    assert_eq!(ids, vec!["3-2", "2-1", "1-0"]);
    assert_eq!(plan_undo(&log, "1-0"), Ok((0, WriteRoute::User)));
    assert_eq!(plan_undo(&log, "2-1"), Err("updates cannot be undone".to_string()));
    assert_eq!(plan_undo(&log, "3-2"), Err("bad-hive".to_string()));
    assert_eq!(plan_undo(&log, "9-9"), Err("no such change in the log".to_string()));
    let u = undo_record("4-3".into(), 9, record("1-0", "disable-autostart", "HKCU"), None);
    assert_eq!(u.action, "undo");
    assert_eq!(u.undoes.as_deref(), Some("1-0"));
    assert_eq!(u.old_value_hex, None);
}

#[test]
fn process_actions_are_tallied_and_remembered() {
    assert_eq!(parse_process_action("kill"), Ok(ProcessAction::Kill));
    assert_eq!(parse_process_action("nap"), Err("bad-action".to_string()));

    let mut t = ActionTally::new();
    assert_eq!(t.record(10, Ok(())), Ok(()));
    assert_eq!(t.record(11, Err("access-denied".into())), Ok(()));
    assert_eq!(t.record(12, Err("open pid 12: gone".into())), Ok(()));
    assert_eq!(t.record(13, Err("later".into())), Ok(()));
    assert_eq!(t.first_error.as_deref(), Some("open pid 12: gone"));
    t.broker_reply(1, None);
    assert_eq!(t.ok, vec![10, 11]);
    let o = outcome(t, true);
    assert_eq!((o.ok_count, o.needs_helper), (2, 0));

    let mut t = ActionTally::new();
    t.record(20, Err("access-denied".into())).unwrap();
    t.broker_reply(0, Some("protected".into()));
    assert_eq!(t.first_error.as_deref(), Some("protected"));
    let o = outcome(t, false);
    assert_eq!((o.ok_count, o.needs_helper), (0, 1));

    let mut t = ActionTally::new();
    assert_eq!(t.record(1, Err("protected".into())), Err("protected".to_string()));

    let mut m = ProcessMemory::new();
    m.remember(ProcessAction::Throttle, &[1, 2, 2]);
    m.remember(ProcessAction::Suspend, &[3]);
    m.remember(ProcessAction::Unthrottle, &[2]);
    assert_eq!(m.throttled, vec![1]);
    assert_eq!(m.suspended, vec![3]);
    m.prune(&[1]);
    assert!(m.suspended.is_empty());
    let f = group_flags("Explorer", &[1, 9], &m, &[]);
    assert!(f.protected && f.throttled && !f.suspended);
    assert_eq!(f.verdict.as_deref(), Some("protected"));
    let f = group_flags("notepad", &[9], &m, &[]);
    assert!(!f.protected && !f.throttled && f.verdict.is_none());

    let r = process_record("7-0".into(), 7, ProcessAction::Suspend, "steam".into(), 1);
    assert_eq!(r.action, "suspend-process");
    assert_eq!(r.detail.as_deref(), Some("1 process"));
    let r = process_record("7-1".into(), 7, ProcessAction::Kill, "steam".into(), 7);
    assert_eq!(r.detail.as_deref(), Some("7 processes"));
}

#[test]
fn mganga_never_acts_on_itself_or_its_descendants() {
    // 100 is Mganga; 200 its webview; 300 the webview's helper; 400 unrelated.
    let parents = [(200, 100), (300, 200), (400, 1)];
    assert_eq!(filter_own_descendants(&[100, 200, 300, 400, 500], 100, &parents), vec![400, 500]);
}

#[test]
fn the_broker_plans_each_request_itself() {
    let req = |op: &str| BrokerRequest {
        op: op.into(),
        path: RUN.into(),
        name: "Spotify".into(),
        enable: true,
        old_value_hex: Some("0200".into()),
        action: "kill".into(),
        pids: vec![7, 4_294_967_297],
    };
    assert!(matches!(plan_request(req("ping")), BrokerPlan::Ping));
    match plan_request(req("set_startup_approved")) {
        BrokerPlan::WriteApproved { new_bytes, .. } => assert_eq!(new_bytes.unwrap()[0], 2),
        _ => panic!("expected a write"),
    }
    match plan_request(req("restore_startup_approved")) {
        BrokerPlan::WriteApproved { new_bytes, .. } => assert_eq!(new_bytes, Some(vec![2, 0])),
        _ => panic!("expected a write"),
    }
    let mut bad = req("restore_startup_approved");
    bad.old_value_hex = Some("xyz".into());
    assert!(matches!(plan_request(bad), BrokerPlan::Refuse(e) if e == "bad hex"));
    match plan_request(req("process_action")) {
        BrokerPlan::ProcessAction { pids, .. } => assert_eq!(pids, vec![7, 1]),
        _ => panic!("expected a process action"),
    }
    assert!(matches!(plan_request(req("format_disk")), BrokerPlan::Refuse(e) if e == "unknown op: format_disk"));

    let mut t = BrokerTally::new();
    t.record(Ok(())).unwrap();
    t.record(Err("bad-action".into())).unwrap();
    assert_eq!((t.ok, t.first_error.as_deref()), (1, Some("bad-action")));
    assert_eq!(t.record(Err("protected".into())), Err("protected".to_string()));
}

#[test]
fn evidence_says_nothing_it_does_not_have() {
    assert_eq!(classify_location(r"C:\Windows\System32\x.exe").as_deref(), Some("in a Windows system folder"));
    assert_eq!(
        classify_location(r"C:\Users\p\AppData\Local\Temp\x.exe").as_deref(),
        Some("in a temporary folder, which honest apps rarely run from")
    );
    assert_eq!(classify_location(r"D:\Games\x.exe"), None);
    assert_eq!(clean_string(" Acme Corp \0\0").as_deref(), Some("Acme Corp"));
    assert_eq!(clean_string(" \0"), None);
    let e = cheap(r"C:\Program Files\A\a.exe", true, Some("Acme".into()), None, None);
    assert_eq!(e.company.as_deref(), Some("Acme"));
    assert_eq!(e.location.as_deref(), Some("in Program Files, where installed software normally lives"));
    assert!(!e.checked_signature);
    let e = cheap(r"C:\gone.exe", false, Some("Acme".into()), None, None);
    assert!(e.company.is_none() && e.location.is_none());
    assert_eq!(authenticode("a.exe", true, Some("Acme".into()), false), (Some("Acme".to_string()), Some(false)));
    assert_eq!(authenticode("a.exe", true, None, true), (None, None));
    assert_eq!(authenticode("", true, Some("Acme".into()), true), (None, None));
}

#[test]
fn ids_settings_and_updates() {
    assert_eq!(new_id(1_700_000_000_123, 42), "1700000000123-42");
    assert!(now_ms() > 1_577_836_800_000);
    assert!(Settings::default().auto_update_check);
    assert_eq!(settings_or_default(None), Settings { auto_update_check: true });
    assert_eq!(settings_or_default(Some(Settings { auto_update_check: false })).auto_update_check, false);
    assert!(!with_auto_update_check(Settings::default(), false).auto_update_check);

    let info = || UpdateInfo { version: "1.1.0".into(), current_version: "1.0.0".into(), notes: None };
    assert_eq!(update_to_announce(Ok(Some(info()))).map(|i| i.version), Some("1.1.0".to_string()));
    assert!(update_to_announce(Ok(None)).is_none());
    assert!(update_to_announce(Err("offline".into())).is_none());
    assert_eq!(pending_update(Ok(None)).err(), Some("no-update".to_string()));
    assert_eq!(pending_update(Err("offline".into())).err(), Some("offline".to_string()));
    let r = update_record("9-0".into(), 9, "1.0.0", "1.1.0");
    assert_eq!(r.value_name, "to 1.1.0");
    assert_eq!(r.detail.as_deref(), Some("from 1.0.0"));
    assert_eq!(r.action, "update");
}

#[test]
fn the_broker_answers_bad_hex_that_would_split_a_character() {
    for hex in ["zz", "aéb"] {
        let req = BrokerRequest {
            op: "restore_startup_approved".into(),
            path: "Nope".into(),
            name: "X".into(),
            enable: false,
            old_value_hex: Some(hex.into()),
            action: String::new(),
            pids: vec![],
        };
        assert!(matches!(plan_request(req), BrokerPlan::Refuse(e) if e == "bad hex"));
    }
}

#[test]
fn a_protected_refusal_keeps_what_was_already_done() {
    let mut t = ActionTally::new();
    t.record(5, Ok(())).unwrap();
    t.record(6, Err("access-denied".into())).unwrap();
    assert_eq!(t.record(7, Err("protected".into())), Err("protected".to_string()));
    assert_eq!(t.ok, vec![5]);
    assert_eq!(t.denied, vec![6]);
    let (done, error) = t.into_refusal("protected".into());
    assert_eq!(done, vec![5]);
    assert_eq!(error, "protected");
}

#[test]
fn an_action_left_with_only_mganga_is_refused() {
    let parents = [(200, 100), (300, 200), (400, 1)];
    assert_eq!(
        actionable_pids(&[100, 200, 300], 100, &parents),
        Err("Those processes belong to Mganga itself.".to_string())
    );
    assert_eq!(actionable_pids(&[], 100, &parents), Err("Those processes belong to Mganga itself.".to_string()));
    assert_eq!(actionable_pids(&[300, 400], 100, &parents), Ok(vec![400]));
}

#[test]
fn record_ids_differ_in_time_or_counter() {
    let ids = [new_id(12, 3), new_id(1, 23), new_id(123, 0), new_id(12, 30), new_id(1, 2)];
    for (i, a) in ids.iter().enumerate() {
        for b in &ids[i + 1..] {
            assert_ne!(a, b);
        }
    }
    assert_eq!(new_id(12, 3), "12-3");
    assert_eq!(new_id(1, 23), "1-23");
}
