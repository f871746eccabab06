# apitester

A declarative HTTP test and load runner: requests and their assertions are
described in YAML, then run once each as a functional test, or repeatedly for a
while as a load test, and reported as a colored terminal listing, a JSON
document or TAP version 14.

## Layout

- `src/` is the library, verified with Verus:
  - `config/`: the configuration as read and as checked (URLs resolved,
    durations parsed, expected JSON bodies converted, load-test request names
    resolved to positions), with the first fault reported; `config/duration.rs`
    says which duration texts can be parsed without the parser overflowing;
  - `assertions.rs`: the assertion engine (status, body text, latency,
    headers, JSON body);
  - `json.rs`: JSON values as `serde_json` holds them, with equality and lookup;
  - `runner.rs`: what a request's outcome records, the load test's schedule and
    stopping rule, and its running tally;
  - `stats.rs`: the latency histogram;
  - `report.rs`: the three report formats, for both kinds of test;
  - `cli.rs`: the subcommands and what each of them runs;
  - `laws.rs`: properties of the library as a whole;
  - `span.rs`, `text.rs`: time spans and text building blocks.
- `app/` is the program around it: command-line parsing, reading the file,
  sending the requests, timing, percentiles and the request rate.
- `tests/` holds the tests of the library.
