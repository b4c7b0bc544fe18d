# gh_sync

Verified core of `gh-sync`, a command-line tool that pulls files from an
upstream template repository into downstream repositories and opens pull
requests for the result.

- `src/` is the library, written in Verus. Its functions carry contracts that
  Verus proves; the few calls into std and `serde_json` stand behind small
  trusted wrappers whose doc comments say what is assumed of them:
  - `strategy` — the `replace` file strategy;
  - `init` — `owner/name` validation, the decisions of `gh-sync init` and the
    diff shown before an overwrite;
  - `workflow` — rendering the scheduled GitHub Actions workflow;
  - `pr` — parsing `git status --porcelain` and the `gh` calls that commit
    through the GitHub API and open a pull request; each step states, through
    the runner's log of calls, exactly which calls it made and what it made
    of their answers;
  - `upstream` — interpreting answers of `gh api` about the upstream repository;
  - `runner` — the `gh` runner abstraction, raw outputs and the error type;
  - `json`, `text` — JSON string literals and verified string helpers.
- `app/` is the program around it: argument parsing, prompts, files, and the
  `gh`/`git` processes.
- `tests/` exercises the library with the real outside crates linked.
