# whoamifuck

A host triage tool for incident response: it gathers login, history, cron,
binary-hash and key information into a report archive, scans for web shells,
weak Redis passwords, rootkit alarms and SQL injection attempts in web logs,
and checks page status, services, ports and system resources.

## Layout

- `src/` — the verified library (Verus).
  - `text.rs` — the text model (`Seq<char>`) and verified line splitting,
    word splitting, search, trimming, joining, padding, decimal notation and
    path joining, with their laws.
  - `style.rs` — terminal styling through `colored`.
  - `utils/banner.rs` — the banners; `utils/system_utils.rs` — section
    headings and the basic-information helpers.
  - `commands/` — each command's plan (`run`) and the rules it applies:
    `risk.rs`, `misc.rs`, `output.rs`, `special.rs`, `complete.rs`.
  - `update.rs` — the release version comparison.
- `app/` — the program: argument parsing, the commands' I/O (files,
  processes, network, system queries) and the parts that print floats.
- `tests/` — tests of the library on concrete values.
