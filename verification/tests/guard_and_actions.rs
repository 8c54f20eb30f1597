use mganga::actions::{
    check_write_target, decode_receipt, plan_value_write, restore_hkcu, set_enabled_hkcu,
    ValueChange,
};
use mganga::guard::{
    from_hex, from_hex_would_panic, is_allowed_approved_path, is_protected_autostart,
    make_approved_bytes, to_hex,
};

const RUN: &str = r"Software\Microsoft\Windows\CurrentVersion\Explorer\StartupApproved\Run";

#[test]
fn guard_refuses_protected_and_bad_paths() {
    assert_eq!(
        set_enabled_hkcu(RUN, "SecurityHealthSystray", false),
        Err("protected".to_string())
    );
    assert_eq!(
        set_enabled_hkcu(r"Software\Wrong\Key", "Anything", false),
        Err("bad-path".to_string())
    );
}

/// The disable -> enable -> restore-to-missing loop, on a value held in
/// memory in place of the registry.
#[test]
fn hkcu_write_and_restore_roundtrip() {
    let name = "MgangaSelfTest";
    let mut stored: Option<Vec<u8>> = None;

    // Disable: the value does not exist yet; the first byte becomes 0x03.
    let bytes = set_enabled_hkcu(RUN, name, false).unwrap();
    let (old, change) = plan_value_write(stored.as_deref(), Some(bytes));
    assert_eq!(old, None, "leftover test value from a previous run?");
    if let ValueChange::Write(b) = change {
        stored = Some(b);
    }
    let raw = stored.clone().expect("value should exist after disable");
    assert_eq!(raw[0], 0x03);
    assert_eq!(raw.len(), 12);

    // Enable: the first byte becomes 0x02; the old bytes are reported back.
    let bytes = set_enabled_hkcu(RUN, name, true).unwrap();
    let (old, change) = plan_value_write(stored.as_deref(), Some(bytes));
    assert!(old.unwrap().starts_with("03"));
    if let ValueChange::Write(b) = change {
        stored = Some(b);
    }
    assert_eq!(stored.as_ref().unwrap()[0], 0x02);

    // Restore to "did not exist": the value disappears.
    let restored = restore_hkcu(RUN, name, None).unwrap();
    let (_, change) = plan_value_write(stored.as_deref(), restored);
    assert!(matches!(change, ValueChange::Delete));
}

#[test]
fn receipts_restore_exactly_what_was_there() {
    let before = vec![0x02u8, 0, 0, 0, 0xde, 0xad, 0xbe, 0xef, 0, 1, 2, 3];
    let (receipt, _) = plan_value_write(Some(&before), Some(make_approved_bytes(false)));
    let receipt = receipt.unwrap();
    assert_eq!(receipt, "02000000deadbeef00010203");
    assert_eq!(decode_receipt(Some(&receipt)), Ok(Some(before.clone())));
    assert_eq!(restore_hkcu(RUN, "Foo", Some(&receipt)), Ok(Some(before)));
    assert_eq!(
        restore_hkcu(RUN, "Foo", Some("0g")),
        Err("bad hex in audit record".to_string())
    );
    // A damaged receipt is refused before the guard is asked.
    assert_eq!(
        restore_hkcu(r"Software\Wrong", "Foo", Some("abc")),
        Err("bad hex in audit record".to_string())
    );
    assert_eq!(restore_hkcu(r"Software\Wrong", "Foo", None), Err("bad-path".to_string()));
}

#[test]
fn deleting_a_missing_value_changes_nothing() {
    let (old, change) = plan_value_write(None, None);
    assert_eq!(old, None);
    assert!(matches!(change, ValueChange::Keep));
}

#[test]
fn paths_match_without_regard_to_ascii_case() {
    assert!(is_allowed_approved_path(
        r"software\microsoft\windows\currentversion\explorer\startupapproved\run32"
    ));
    assert!(is_allowed_approved_path(
        r"Software\Microsoft\Windows\CurrentVersion\Explorer\StartupApproved\StartupFolder"
    ));
    assert!(!is_allowed_approved_path(
        r"Software\Microsoft\Windows\CurrentVersion\Explorer\StartupApproved\Run\x"
    ));
    assert!(is_protected_autostart("Windows Defender notification"));
    assert!(is_protected_autostart("xWINDOWSDEFENDERx"));
    assert!(!is_protected_autostart("Spotify"));
    assert_eq!(check_write_target(RUN, "Spotify"), Ok(()));
}

#[test]
fn approved_bytes_follow_task_manager() {
    let on = make_approved_bytes(true);
    assert_eq!(on, vec![0x02, 0, 0, 0, 0, 0, 0, 0, 0, 0, 0, 0]);
    let off = make_approved_bytes(false);
    assert_eq!(off.len(), 12);
    assert_eq!(&off[..4], &[0x03, 0, 0, 0]);
    let ft = u64::from_le_bytes(off[4..12].try_into().unwrap());
    // Stamped with a time after 2020-01-01.
    assert!(ft > 132_223_104_000_000_000);
}

#[test]
fn hex_round_trips_and_rejects_junk() {
    let bytes: Vec<u8> = (0..=255u8).collect();
    let hex = to_hex(&bytes);
    assert_eq!(hex.len(), 512);
    assert_eq!(from_hex(&hex), Some(bytes));
    assert_eq!(to_hex(&[0x0a, 0xff]), "0aff");
    assert_eq!(from_hex("0AfF"), Some(vec![0x0a, 0xff]));
    assert_eq!(from_hex("abc"), None);
    assert_eq!(from_hex("zz"), None);
    assert_eq!(from_hex(""), Some(vec![]));
    // A sign is allowed by the radix parser.
    assert_eq!(from_hex("+f"), Some(vec![0x0f]));
    // Slicing "é" in two would panic; the check says so.
    assert!(from_hex_would_panic("aéa"));
    assert!(!from_hex_would_panic("zzé"));
}

#[test]
fn receipts_that_would_split_a_character_are_bad_hex() {
    assert_eq!(
        restore_hkcu(RUN, "Foo", Some("aéa")),
        Err("bad hex in audit record".to_string())
    );
    assert_eq!(decode_receipt(Some("aéb")), Err("bad hex in audit record".to_string()));
    assert_eq!(mganga::guard::from_hex_checked("aéb"), None);
    assert_eq!(mganga::guard::from_hex_checked("0a"), Some(vec![0x0a]));
}

#[test]
fn undo_writes_back_what_the_change_replaced() {
    let before = vec![0x02u8, 0, 0, 0, 0, 0, 0, 0, 0, 0, 0, 0];
    // The toggle: its receipt is the value it replaced.
    let (receipt, change) = plan_value_write(Some(&before), Some(set_enabled_hkcu(RUN, "Foo", false).unwrap()));
    let now = match change {
        ValueChange::Write(b) => b,
        _ => panic!("a toggle writes"),
    };
    // The undo: the old value goes back, and the value it replaced is its receipt.
    let (undo_receipt, change) =
        mganga::actions::undo_hkcu(RUN, "Foo", receipt.as_deref(), Some(&now)).unwrap();
    assert_eq!(undo_receipt, Some(to_hex(&now)));
    assert!(matches!(change, ValueChange::Write(b) if b == before));
    // A value that did not exist before is deleted again.
    let (_, change) = mganga::actions::undo_hkcu(RUN, "Foo", None, Some(&now)).unwrap();
    assert!(matches!(change, ValueChange::Delete));
    assert_eq!(
        mganga::actions::undo_hkcu(r"Software\Wrong", "Foo", None, None).err(),
        Some("bad-path".to_string())
    );
}
