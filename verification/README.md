# swat

A semantic debugger toolkit: the event model of a debugging session, the
binary PC/GEOS artifact formats (file headers, VM files, string tables,
object and symbol files), the query and command languages, trigger
evaluation state, replay plans and the framing of the adapter wire
protocols. Every function of the library carries a contract that Verus
proves.

## Layout

- `src/` the verified library, one module per concern:
  - `model` sessions, events, artifacts, emissions and the `TargetAdapter`
    trait through which a session drives a target;
  - `pcgeos_bytes`, `pcgeos`, `pcgeos_vm`, `pcgeos_strings`, `pcgeos_obj`,
    `pcgeos_symbols` the PC/GEOS formats, each parser stated against a
    specification of the bytes it reads; `pcgeos_json` the JSON artifacts
    of a recorded PC/GEOS target;
  - `repository`, `repository_model`, `inventory` manifests and the
    repository model built from them and from symbol files;
  - `expr`, `command`, `cli`, `registry`, `format`, `help` the query
    language, the command language, its help and search, and their outputs;
  - `trigger_engine`, `eval`, `until`, `persist`, `control`, `api`, `pump`,
    `resolver` triggers, when they fire, the `until` loop's decisions, their
    saved form and the session-side decisions;
  - `replay` replay plans and their application to an adapter;
  - `protocol`, `agent_protocol`, `process`, `adapter_*`, `mock` wire
    framing and the adapters' own state machines;
  - `schema` JSON schema inference and validation;
  - `text`, `strmap` strings and a sorted string map.
- `tests/` tests of the library from outside.
- `app/` the program around the library: file and process I/O and the
  command-line entry point.

Laws of the library (properties relating several calls, such as what a
replay plan for one boundary is in terms of the whole plan) stand in `src/`
as public proof functions whose names begin with `law_`.
