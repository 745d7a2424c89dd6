# tamandua_analyzers

The detection logic of an endpoint agent, with contracts that Verus proves.

The analyzers look at what processes do and at what their memory holds. What they
find becomes alerts, which are scored, grouped, correlated and answered.

## Layout

- `src/` is the library. Every function states what it returns or changes.
  - Analyzers: `behavioral`, `behavioral_chains`, `bof_detector`,
    `cmdline_spoofing`, `data_staging`, `early_bird`, `etw_tampering`, `explainer`,
    `heap_spray`, `indirect_syscall`, `memory_write_monitor`.
  - Alerts: `alert`, `alert_rules`, `predefined_rules`, `sightings`, `risk_scorer`,
    `aggregation`, `correlation`, `notification`, `response` and `alerting`, which
    puts them together.
  - What they share: texts (`text`, `words`, `pattern`, `similarity`, `paths`),
    collections (`collect`, `textmap`, `textset`, `bytes`), `wide`, `json`, `telemetry`,
    `statistics`, `baseline`, `risk`, `digest` and `ids`.
- `tests/` runs the library on given values.
- `app/` is the agent around it: clocks, files, channels, processes, the registry.

## Units

- Confidences, scores and weights are whole numbers of millionths, from 0 to
  1,000,000. Risk scores are millionths of a point.
- Entropies are millionths of a bit.
- The values of a series are signed thousandths, its mean and deviation millionths.
- Times are milliseconds since the Unix epoch; those of event tracing are seconds.

Entropy and decay need logarithms and powers. `app/floats.rs` computes them, and the
library takes the results.

## Laws

What holds of several functions together stands beside them as public proof
functions whose names begin with `law_`.

## What is trusted

The functions marked `#[verifier::external_body]` call the standard library, `regex`,
`hex`, `sha2` and `uuid`. The comment above each says what is claimed of the call.
