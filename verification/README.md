# sieve_kit

A rule-based mail filtering engine (conditions → actions, first-match
evaluation into execution-ready plans) written in Verus. The library's own
functions carry `requires`/`ensures` contracts that Verus proves; the calls
into `std` and the `regex` crate go through a few small wrappers whose
contracts restate what those libraries document.

## Layout

- `src/types.rs` — the rule model (`FilterRule`, `Condition`, `Action`,
  `Flag`, `Vacation`, `Notify`), the `Filterable` message trait with
  `MailEnvelope` and `FieldValues`, and rule validation.
- `src/eval.rs` — condition and rule evaluation, field resolution, address
  parts, priority sorting, and `evaluate_plan` with vacation/notify
  resolution; the evaluation laws (negation, determinism without regex,
  first-match uniqueness, …) are proof functions here.
- `src/actions.rs` — planned actions, `build_action_plan`,
  `collect_matches`, the RFC 5232 flag fold `apply_flag_plan` with its laws,
  and the `VacationTracker` respond-once ledger.
- `src/glob.rs` — `*`/`?`/backslash glob matching, proved equal to a
  recursive definition, with its laws.
- `src/numeric.rs` — the `i;ascii-numeric` comparator, proved to be
  equality of decimal values.
- `src/pattern.rs` — regex compilation and matching through the `regex`
  crate, and the shared `RegexCache`.
- `src/text.rs`, `src/clock.rs` — character helpers and clock readings.
- `tests/` — behaviour tests.
- `app/` — `serde` and `std::error::Error` support: serializable copies of
  the rule model and displayable copies of the error and warning types,
  converting to and from the library's types.
