use mganga::installed::{
    format_size, msi_uninstall_verb, normalize_path, owner, parse_install_date, parse_key,
    shared_roots, split_command, suggest, InstalledProgram,
};

/// The shared roots a typical Windows machine's environment names.
fn roots() -> Vec<String> {
    let env = [
        r"C:\Program Files",
        r"C:\Program Files (x86)",
        r"C:\ProgramData",
        r"C:\Program Files\Common Files",
        r"C:\Program Files (x86)\Common Files",
        r"C:\Users\pat\AppData\Local",
        r"C:\Users\pat\AppData\Roaming",
        r"C:\Users\pat",
        r"C:\Windows",
    ];
    let env: Vec<String> = env.iter().map(|s| s.to_string()).collect();
    shared_roots(&env)
}

fn program(name: &str, loc: &str, size_kb: Option<u32>, installed_days: Option<u32>) -> InstalledProgram {
    InstalledProgram {
        name: name.into(),
        key: format!("HKLM\\Software\\Microsoft\\Windows\\CurrentVersion\\Uninstall\\{name}"),
        install_location: normalize_path(loc),
        size_kb,
        installed_days,
    }
}

#[test]
fn owner_needs_exactly_one_deep_match() {
    let roots = roots();
    let programs = [
        program("Foo", r"C:\Program Files\Foo\", None, None),
        program("Bar", r"C:\Program Files\Bar", None, None),
        program("Bar Helper", r"C:\Program Files\Bar", None, None),
        program("Greedy", r"C:\Program Files", None, None),
        program("Greedier", r"C:\", None, None),
        program("Tablet", r"C:\PenTabletDriver\", None, None),
    ];
    // A folder straight under the drive is a normal home for a program.
    assert_eq!(
        owner(&programs, r"C:\PenTabletDriver\TabletDriver.exe", &roots).map(|p| &p.name[..]),
        Some("Tablet")
    );
    assert_eq!(
        owner(&programs, r"C:\Program Files\Foo\foo.exe", &roots).map(|p| &p.name[..]),
        Some("Foo")
    );
    // Two programs claim Bar's folder: shared, so silence.
    assert!(owner(&programs, r"C:\Program Files\Bar\bar.exe", &roots).is_none());
    // Only the shallow claimants match this one, and they never count.
    assert!(owner(&programs, r"C:\Program Files\Other\x.exe", &roots).is_none());
    // Prefix must be a whole folder, not a string prefix.
    assert!(owner(&programs, r"C:\Program Files\Foobar\x.exe", &roots).is_none());
}

#[test]
fn suggestion_bar_and_wording() {
    let roots = roots();
    let programs = [
        program("Old Thing", r"C:\Program Files\Old", Some(1_258_291), Some(400)),
        program("Sizeless", r"C:\Program Files\Sizeless", None, Some(20)),
    ];
    let old = Some(r"C:\Program Files\Old\old.exe");
    // Verdict gate.
    assert!(suggest(&programs, old, "your-call", Some(400), &roots).is_none());
    // Proven: a last-opened record 180+ days back.
    let s = suggest(&programs, old, "safe-to-disable", Some(400), &roots).unwrap();
    assert_eq!(s.line, "Unused for about a year. Uninstalling frees about 1.2 GB.");
    // Recently opened: no suggestion even if the install is old.
    assert!(suggest(&programs, old, "safe-to-disable", Some(30), &roots).is_none());
    // Inferred: no record, old install. Hedged wording, no "unused".
    let s = suggest(&programs, old, "safe-to-disable", None, &roots).unwrap();
    assert!(s.line.starts_with("Installed about a year ago, with no record of you opening it."));
    // No record and a young install: silence.
    let young = Some(r"C:\Program Files\Sizeless\s.exe");
    assert!(suggest(&programs, young, "safe-to-disable", None, &roots).is_none());
    // No size known: the line stops after the evidence.
    let s = suggest(&programs, young, "safe-to-disable", Some(200), &roots).unwrap();
    assert_eq!(s.line, "Unused for about 6 months.");
}

#[test]
fn keys_commands_and_dates_parse_strictly() {
    assert!(parse_key(r"HKLM\Software\Microsoft\Windows\CurrentVersion\Uninstall\Foo").is_some());
    assert!(parse_key(r"HKCU\Software\Microsoft\Windows\CurrentVersion\Uninstall\Foo").is_some());
    assert!(parse_key(r"HKLM\Software\Microsoft\Windows\CurrentVersion\Uninstall\Foo\Bar").is_none());
    assert!(parse_key(r"HKLM\Software\Microsoft\Windows\CurrentVersion\Run\Foo").is_none());
    assert!(parse_key(r"HKLM\Software\Microsoft\Windows\CurrentVersion\Uninstall\").is_none());

    assert_eq!(
        split_command(r#""C:\Program Files\Foo\unins000.exe" /SILENT"#),
        (r"C:\Program Files\Foo\unins000.exe".to_string(), "/SILENT".to_string())
    );
    assert_eq!(
        split_command(r"C:\Program Files\Foo\uninstall.exe --quiet"),
        (r"C:\Program Files\Foo\uninstall.exe".to_string(), "--quiet".to_string())
    );

    assert_eq!(
        msi_uninstall_verb("MsiExec.exe /I{6F2E1A3B-0000-4000-8000-000000000001}"),
        "MsiExec.exe /X{6F2E1A3B-0000-4000-8000-000000000001}"
    );
    assert_eq!(msi_uninstall_verb("MsiExec.exe /X{ABC}"), "MsiExec.exe /X{ABC}");
    assert_eq!(msi_uninstall_verb(r"C:\Foo\unins.exe /I"), r"C:\Foo\unins.exe /I");

    assert_eq!(parse_install_date("19700101"), Some(0));
    assert_eq!(parse_install_date("20000301"), Some(11_017));
    assert!(parse_install_date("2024-01-01").is_none());
    assert!(parse_install_date("20241301").is_none());

    assert_eq!(format_size(1_258_291), "1.2 GB");
    assert_eq!(format_size(348_160), "340 MB");
}

/// The one-decimal GB figure rounds exactly as `{:.1}` does on the float
/// quotient, ties included.
#[test]
fn gigabytes_round_like_the_float_format() {
    let samples: [u32; 12] = [
        1_048_576, 1_153_433, 1_258_291, 2_359_296, 2_411_724, 2_464_153, 3_407_872, 10_485_760,
        11_010_048, 104_857_599, 4_294_967_295, 1_572_864,
    ];
    for kb in samples {
        let expected = format!("{:.1} GB", kb as f64 / 1_048_576.0);
        assert_eq!(format_size(kb), expected, "kb = {kb}");
    }
    assert_eq!(format_size(1023), "1023 KB");
    assert_eq!(format_size(1024), "1 MB");
    assert_eq!(format_size(1_048_575), "1023 MB");
}

#[test]
fn shared_roots_cover_the_folder_its_programs_child_and_its_parent() {
    let roots = shared_roots(&[r"C:\Users\pat".to_string()]);
    assert_eq!(roots, vec![r"c:\users\pat".to_string(), r"c:\users\pat\programs".to_string(), r"c:\users".to_string()]);
    let roots = shared_roots(&[r"C:\Program Files".to_string()]);
    assert_eq!(roots[2], "c:");
}

#[test]
fn bare_commands_split_after_the_first_exe_in_any_case() {
    assert_eq!(
        split_command("  C:\\Tools\\SETUP.EXE /uninstall  "),
        ("C:\\Tools\\SETUP.EXE".to_string(), "/uninstall".to_string())
    );
    assert_eq!(split_command("\"C:\\No Close\\x.exe"), ("C:\\No Close\\x.exe".to_string(), String::new()));
    assert_eq!(split_command("rundll32 something"), ("rundll32 something".to_string(), String::new()));
}

#[test]
fn commands_that_would_cut_a_character_are_reported_not_split() {
    assert_eq!(
        mganga::installed::try_split_command("C:\\a.exe /s"),
        Some(("C:\\a.exe".to_string(), "/s".to_string()))
    );
    // "İ" lowercases to three bytes where it had two, so the ".exe" found in
    // the lowercase form lies past where it is in the command itself.
    assert!(mganga::installed::split_command_would_panic("İ.exe"));
    assert_eq!(mganga::installed::try_split_command("İ.exe"), None);
    let plain = mganga::installed::try_msi_uninstall_verb("MsiExec.exe /I{X}");
    assert_eq!(plain.as_deref(), Some("MsiExec.exe /X{X}"));
    assert_eq!(
        mganga::installed::try_uninstall_command("   "),
        Some(Err("that program has no uninstaller registered".to_string()))
    );
    assert_eq!(
        mganga::installed::try_uninstall_command("MsiExec.exe /I{X} /q"),
        Some(Ok(("MsiExec.exe".to_string(), "/X{X} /q".to_string())))
    );
}
