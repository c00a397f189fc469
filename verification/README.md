# carbide-rvs

The Rack Validation Service polls an inventory API for racks, caches the artifacts
that its scenarios need, validates each partition of a rack and keeps the `rv.*`
labels of the machines up to date.

- `src/` is the verified core: the requests, the merges, the choices and the checks
  of the service, each with a contract that Verus checks. It does no I/O.
  - `client`: what the inventory API returns, and the trays, racks and firmware
    records made of it.
  - `label`: label maps and the merge of `rv.*` labels.
  - `nicc`: the requests to the inventory API and what is made of the answers.
  - `scenario`, `ctx`: scenarios, settings and the runtime context.
  - `artifact`: where the SOT document comes from.
  - `download`, `digest`: the download of one artifact and its checksum.
  - `service`: the liveness answer and the validation cycle.
  - `json`, `ids`, `text`, `error`: JSON documents, UUIDs, text and errors.
- `app/` is the service around it: command line, files, HTTP. It runs with a client
  of the inventory API and the validation stages that a binary supplies.
- `tests/` runs the core.

What is proved rests on the contracts of the items marked `Trusted` in `src/`, which
speak of `serde_json`, `sha2`, `uuid`, `reqwest` and `String::push`.
