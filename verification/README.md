# orksorksorks

A small CLI that drives step-based conventions for coding-agent workflows.
It reads an `orksorksorks.toml` config that declares a workflow's steps, the
model and prompt for each step, and optional scripts, then answers "which
step am I on?" from the trigger files present in the artifact directory
(`<cwd>/.pi/orksorksorks/<branch>/`) and prints the step's prompt, model,
thinking budget or script on demand.

## Layout

- `src/` is the library, verified with Verus:
  - `config.rs`: the configuration model and its validation (the first
    broken rule, in a fixed order, is reported).
  - `config_dir.rs`: where the config file lives (`--config`, else
    `XDG_CONFIG_HOME` when absolute, else `APPDATA` or `$HOME/.config`).
  - `resolve.rs`: lookups by name and the artifact-directory path.
  - `search.rs`: the search for the current step (the last step whose
    trigger artifact exists, else the default step).
  - `commands.rs`: each command as an exchange of outside work and
    decisions: `select_command` starts it, `CommandRun::advance` continues
    it with what the outside work produced, until it finishes with the
    answer.
  - `output.rs`: the text and JSON forms of an answer.
  - `errors.rs`, `format.rs`, `git.rs`, `text.rs`, `scan.rs`: the error
    type, colored output, `git branch --show-current` output, text helpers
    and first-match scans.
  - `laws.rs`: properties that span several functions.
- `app/` is the program around the library: command-line parsing, reading
  the environment and the config file, running git, checking files,
  creating the config file, and printing.
- `tests/` runs the library against concrete inputs.
