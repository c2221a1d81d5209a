# terraform_plan_parser

Summaries of Terraform plans: the command reads a plan (a live `terraform plan
-json` run, piped JSON, an NDJSON or full JSON plan file, or a saved `.tfplan`
through `terraform show -json`), filters, sorts and counts the planned resource
changes, and renders them as text, JSON, CSV, an aligned table or a Markdown
step summary. Two plans can be compared for added, removed and changed
resources.

The logic is a library verified with Verus; the command around it is ordinary
Rust.

## Layout

- `src/` — the verified library.
  - `parser.rs` — the plan model, the records decoded from Terraform's JSON,
    and parsing, filtering (glob patterns), counting and sorting of changes.
  - `compare.rs` — the comparison of two plans.
  - `renderer.rs`, `diff_render.rs` — text, JSON, CSV, table and step-summary
    output of changes and of comparisons.
  - `cli.rs` — options, configuration defaults and the effective settings.
  - `terraform.rs` — which input a path names, dry runs, and the outcome of the
    `terraform` invocations.
  - `text.rs`, `json_text.rs` — character-level helpers and JSON string literals.
  - `glob_match.rs`, `paths.rs` — the calls into the `glob` crate and
    `std::path`, with their trusted contracts.
  - `laws.rs` — properties of the library as a whole.
- `tests/` — tests of the library.
- `app/` — the command: argument parsing (`clap`), configuration files
  (`toml`), JSON decoding (`serde_json`), logging (`tracing`), and everything
  that touches the process, files or the environment.
