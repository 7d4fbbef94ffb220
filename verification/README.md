# date_time

A temporal model with explicit precision, zones, uncertainty and leap seconds, verified with
Verus.

A `TimePoint` is a wall clock (year down to millisecond) read in a `TimeZone`, resolved to a
`Precision`, with an optional symmetric `Uncertainty`. A point denotes a span — its unit of
precision, or `±u` seconds around it — and spans are compared with Allen's interval algebra
and three-valued truth (`TruthValue`). `Duration` is a fixed number of milliseconds; `Period`
is a calendar amount kept in normal form. Stepping by seconds passes through the leap seconds
of the IERS table, and points convert between UTC, TAI, Unix time and fixed offsets.
`LeapSeconds` holds a leap-second list read from the text of a `leap-seconds.list`.
`leap_second_entries`, `is_leap_second`, `get_leap_seconds_data`, the one-second steps
`add_one_second_with` and `sub_one_second_with`, `TimePoint::new_with` and the TAI
conversions `*_with` take such a list; multi-second arithmetic, parsing and the plain
functions use the table built into the library (`LeapSeconds::built_in`).

## Layout

- `src/` — the verified library. Every function carries a contract over spec functions
  (`time_point.rs` holds the stepping rules, `time_arithmetic.rs` durations and periods,
  `interval.rs` spans and Allen relations, `tai.rs` and `unix.rs` the time scales,
  `calendar.rs` the calls into the `time` crate). `reversal.rs`, `tai.rs`, `conversion.rs`,
  `period.rs`, `interval.rs` and `time_point.rs` also state and prove the library's laws: what
  one step undoes, round trips between scales and zones, the order of keys, normal forms.
  `feasibility.rs` decides beforehand whether an operation stays within the fields' ranges.
- `tests/` — tests of the library's behaviour.
- `app/` — Python bindings (PyO3), the leap-second list's file and network sources, and serde
  forms of the value types.
