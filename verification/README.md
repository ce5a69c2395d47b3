# nnrp_conformance_suite

The conformance baseline logic for versioned NNRP protocol lines, written in
Verus: every planning, validation and vector-rendering rule carries a
contract that the verifier proves.

- `src/` is the verified library: case selection and plans (`plan`,
  `execution`, `capability_checks`), benchmark plans (`benchmarks`), result
  validation (`results`, `wire_results`, `api_profile`), canonical golden
  vectors (`semantic_vectors`, `vector_manifest`, `vector_compare`), wire
  plans and evidence checks (`wire_plan`, `wire_frames`, `wire_evidence`),
  host-route support (`host_route`, `host_run`, `host_evidence`,
  `reference_target`, `wire_run`),
  the JSON model the API profile logic reads (`json_model`) and the
  comparison of JSON texts as values (`json_text`), and the
  body-region checks of API-profile result bodies (`profile_body`). The
  properties that span several functions are proved in `laws`,
  `vector_laws` and `route_laws`.
- `app/` is the command-line runner: it reads and writes the JSON files and
  converts between their shapes and the library's types.
- `tests/` exercises the library on concrete manifests, plans and reports.

Not part of this crate: the live wire runs (the frame-level external runner,
the host-route client and server runs with their driver processes), the
OpenAI-profile wire client, and the two reference-target programs. They drive
the NNRP runtime and transport SDK over async I/O; the decisions they take
(evidence, readiness, carrier checks, timeouts, target manifests) are the
library functions above.
