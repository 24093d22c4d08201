# bootflow

The logic of BootFlow, a Windows startup manager, as a library verified with
Verus: what the scanners make of what they read, the boot time line and the
attribution of boot cost to items, duplicates, risk and advice, the boot
records, snapshots, restore plans and scripts, and the update check.

Every public function states what it returns in its contract; the laws that
hold across functions (ids fixed by the scan, rollback restores every change,
duplicates always point at a kept entry, the order of the two cost
attributions does not matter, and others) are public proof functions.

Layout:

- `src/` — the library. `scanners/` builds items from what was read,
  `diag/` reads the boot (event log, process sample, WDI impact, boot
  records) and attributes it, `snapshot/` plans, guards, exports and rolls
  back changes, `pipeline.rs` runs the steps over a scan in their fixed order.
- `tests/` — the tests, run against the compiled library.
- `app/` — a partial shell around the library, not the full program: the
  `--mark-boot` entry and the settings and boot-record files under
  `%LOCALAPPDATA%\BootFlow`. It reads the time since boot from
  `/proc/uptime` where that exists (not Windows' tick count), never reads
  the boot start from the event log (every record is an estimate), and only
  prints what the logon entry would need (it neither registers nor removes
  the task or the Run value). The scans, the diagnosis, turning recording
  on, elevation and the user interface need the Windows API, registry and
  GUI crates and are not part of it.

Calls into `chrono` and `uuid` go through small trusted wrappers whose
contracts say what the crates' documentation promises.
