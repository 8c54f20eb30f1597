# Mganga

A Windows resource healer: it shows what launches at boot and what is running
right now, explains in plain language what each thing costs, and lets the user
act — toggle autostarters off (reversibly), or ease off, pause or stop running
processes. A healer does not poison the patient: protected parts of Windows are
never touched, and every change leaves a receipt from which it can be undone.

The rules are a Verus library, proved against their contracts; the program
around them reads and writes the machine.

## Layout

- `src/` — the verified library (`mganga`)
  - `guard.rs` — the StartupApproved paths a write may touch, the names never
    toggled, the 12-byte on/off value, and the hex receipts (with the proof
    that a receipt reads back to the exact bytes)
  - `actions.rs` — the decisions of a toggle and of its undo
  - `autostart.rs` — building the inventory from Run keys, Startup folders,
    logon tasks and services; usage evidence and verdicts; display order
  - `sorting.rs` — the stable sort behind that order
  - `judge.rs` — the verdict engine for autostart entries and processes
  - `usage.rs` — UserAssist evidence (ROT13 names, run counts, last-run days)
  - `installed.rs` — installed programs, their ownership of executables, the
    uninstall suggestion, uninstall commands and keys
  - `evidence.rs`, `winpath.rs`, `text.rs` — file evidence, Windows path rules,
    string building blocks
  - `shield.rs`, `unblock.rs` — the connection shield / unblocker status cards
  - `proc_control.rs`, `processes.rs`, `commands.rs`, `broker.rs` — process
    control, the process list, the command layer and the elevated broker's
    decisions
  - `audit.rs`, `settings.rs`, `updater.rs`, `clock.rs` — records, settings,
    update decisions and the one place the clock is read
- `tests/` — tests of the library on concrete values
- `app/` — the Windows program: registry, files, Windows APIs, the Tauri
  window and the broker's pipe
