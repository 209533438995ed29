# southpaw

A runtime posture checker for Linux-hosted processes, with its decision logic
specified and proved in Verus.

- `src/` — the verified library.
  - `policy.rs`: the policy model, its defaults, and the choice of policy format.
  - `report.rs`: findings, the report, its evaluation against thresholds and run
    modes, and the laws of that evaluation.
  - `checks/procfs.rs`: parsing of `/proc/self/status` and `/proc/self/mountinfo`,
    and capability decoding.
  - `checks/linux.rs`: the identity, filesystem, sandbox and network checks over
    what the host showed, and the Linux report as a whole.
  - `checks/mod.rs`, `lib.rs`: the entry point `check_posture`.
  - `startup.rs`: gating application startup on the posture.
  - `cli.rs`: the command line's decisions (arguments, templates, exit codes,
    `--exec` gating) and the text rendering of a report.
  - `text.rs`: character-level text helpers with their specifications.
- `tests/` — tests of the library on concrete values.
- `app/` — the command line program: reading files and the environment, probing
  the network, serde parsing and JSON output, and process execution.
