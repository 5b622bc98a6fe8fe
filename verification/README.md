# recomposition_orchestrator

Selects stored `intel_candidate_hypothesis_state_v1` records that became dirty
after a market, policy, app-version or source-registry change, and writes
deterministic `hypothesis_harness_job_v1` work and a
`recomposition_orchestrator_report_v1` run report.

## Layout

- `src/` is the library, verified with Verus:
  - `args/`: command-line parsing and validation (local paths, S3 buckets,
    prefixes and their pairing, integer options);
  - `path_validation.rs`: absolute, unambiguous local paths;
  - `triggers.rs`: the trimmed, sorted, duplicate-free set of changed triggers;
  - `planning.rs`: which states are dirty, the job for each, the run report,
    and the laws that tie them together;
  - `ids.rs`: key prefixes, time partitions (via `chrono`) and SHA-256
    identifiers and checksums (via `sha2`);
  - `json.rs`: the compact and pretty JSON text of jobs and reports;
  - `keys.rs`: output object keys and the rules an output key obeys;
  - `frame.rs`: splitting a payload into a JSON array, object or JSON lines;
  - `text.rs`: character-level helpers and their lemmas.
- `tests/` runs the library on concrete inputs.
- `app/` is the program around it: argument reading, file and S3 I/O, JSON
  decoding of the stored states, and the run summary.
