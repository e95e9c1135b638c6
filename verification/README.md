# vexometer_efficacy

The rules of the vexometer ISA efficacy protocol, verified with Verus.

- `src/` — the verified library: the metric catalogue (`metric`), verdicts
  and the acceptance rule with its precedence order (`verdict`), probe
  measurements and the capability cross-check (`probes`), the evaluator's
  refusals and decisions (`evaluation`), the report writer's checks
  (`report`), the frontier record writer's rules and its ledger of
  attempts, whose appends keep the record invariant (`frontier`), the two
  validators with the wording of each problem (`efficacy_validation`,
  `frontier_validation`), the laws that tie the writers to the validators
  (`agreement`), errors (`error`) and text helpers (`text`).
- `app/` — the floating-point figures (`G_m`, deltas, `D_ISA`, pass rates,
  rounding), the JSON documents (serde), and the wiring of both to the
  library's rules, under the crate's public API (`evaluate`,
  `build_report`, `FrontierRecord::append`, `validate_efficacy`,
  `validate_frontier`).
- `tests/` — the protocol's scenarios and concrete cases of each rule.

The library never sees a floating-point value: the application compares
the scores and hands the library the outcome of each comparison (whether a
target improved, whether a collateral delta lies in or beyond the warning
band, whether a stored figure matches its recomputation) together with the
figures rendered as text, and the library decides refusals, verdicts,
frontier moves and validation problems, and words every message.
