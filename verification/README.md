# evelin

A library and command line for evaluating AI agent skills: suite configs in
YAML, JSON or TOML are checked against the suite schema, skill documents are
linted for required snippets, prompts are run through the `codex` CLI and
their answers graded against markers, and a skill's whole suite is run step
by step.

The library in `src/` is verified with Verus. Its contracts state what each
function returns; the laws of the library are public proof functions:

- `config`: suite configs, the layered runtime settings (built-in defaults,
  `eval-config.toml` `[defaults]` and `[eval_type.<type>]`, the suite
  config's own settings, `EVAL_CODEX_HOME_BASE_DIR`) and their laws.
- `schema`: the suite schema checks.
- `gate`: required snippets of skill documents, and their lint.
- `runtime`: the `codex exec` command line, reading a finished run,
  transient failures, isolated CLI homes.
- `eval`: which cases run when, serial retries, marker grading.
- `suite`: config discovery, finding gate requirements, the steps of a suite
  run and its verdict.
- `cli`: labels, icons, default paths and exit codes of the command line.
- `document`, `json`, `text`, `error`: documents, the JSON data model,
  text functions and the error type.

`app/` is the command line around it: argument parsing, files, child
processes, threads, clocks and the JSON reports.
