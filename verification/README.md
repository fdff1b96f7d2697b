# weaver

The decision-making core of two weaver organs, the membrane that stands
between the loop and its clients and the harness that runs the loop, written
in Verus and proved against its contracts.

## Layout

- `src/text.rs`, `src/json.rs`: decimal rendering, UTF-8 budgets, trimming,
  and the JSON readings the rest composes (JSON itself is serde_json's).
- `src/wire.rs`: the exchange vocabulary the organs speak.
- `src/gate/`: the membrane: channel verdicts, the hook's access rule, the
  line relay, the lifecycle service's positions and the shell tool's
  validation, capture and supervision.
- `src/harness/`: the harness: the lifecycle's step machine and enter stages,
  the turn's decisions, the state seam's answers, trace authorship, prompt
  assembly and the diagnostic replay's grouping and certification.
- `tests/`: the scenarios, run against the compiled library.
- `app/`: the membrane binary: sockets, descriptors, processes and the
  encoding of envelopes, driving the library's decisions.

Each module states its laws as public proof functions beside the functions
they speak of.
