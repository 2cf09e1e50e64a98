# reachability_assistant

A Linux-first helper that checks whether a Space Acres node is reachable from
outside (`30333/tcp`, `30433/tcp`), fixes what it safely can (UFW allow rules,
UPnP port mappings), and otherwise returns one fixed classification with a
next step.

The library under `src/` is verified with Verus. It never runs a process
itself: `inspect`, `apply` and `renew` are step functions that take the outputs
of the commands run so far and answer with the next command to run or with the
final report. `app/main.rs` runs that loop against the real system for the
`inspect`, `apply`, `renew` and `report` commands and prints the report.

- `src/text.rs`: line, word and field splitting, substring search, `u8`
  parsing and decimal rendering, each specified as `str` does it.
- `src/inspect.rs`: parsers for `ss`, `ufw status`, `hostname -I`, `ip route`,
  the public address lookup and `upnpc -l`; classification; the inspection step.
- `src/session.rs`: plans of skipped and attempted actions shared by the fix and
  the renewal.
- `src/apply.rs`, `src/renew.rs`: the fix and the renewal, with their laws.
- `src/json.rs`: JSON values, the pretty layout the report is written in, and
  a JSON reader, with the proof that every value written reads back as itself.
- `src/model.rs`, `src/reporter.rs`: the report, its JSON and text forms, exit
  codes.
- `src/cli.rs`, `src/profile.rs`, `src/system.rs`: arguments, profiles, and the
  command requests and outputs exchanged with the caller.
