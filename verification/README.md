# ruos

The decision logic of the ruOS workstation tools, verified with Verus: the AIDefence
threat scanner, GPU profile selection, sensor consent, voice command parsing,
backup manifests and the agent's heartbeat decisions.

- `src/` is the verified library. Each module states its behaviour over spec functions
  (`scan_result`, `recommendation_of`, `lookup`, `classify`, ...) and proves the
  executable code against them. Public proof functions named `lemma_*` state the
  library's laws (a safe scan has no threats, consent reads back what was decided,
  pruning keeps the newest snapshots, thermal safety overrides every other choice, ...).
- Calls into `regex`, `chrono`, `sha2` and `hex` stand behind small trusted wrappers in
  `pattern.rs`, `clock.rs` and `encoding.rs`, each with a doc comment that says what its
  contract claims.
- `tests/` runs the library on concrete inputs with the real outside crates linked.
- `app/` is the `ruos` command line: files, processes, HTTP, audio and the float
  arithmetic that the library leaves out, calling the library for every decision.
