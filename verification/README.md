# git-credit

A command-line tool that adds `Co-authored-by` trailers to the latest Git commit. It finds
contributors in the repository history, lets the user fuzzy-search and pick them, shows the
trailers for confirmation, and amends `HEAD`.

The decisions the tool makes are a library verified with Verus; the program around it runs
`git`, reads keys and draws the terminal.

## Layout

- `src/` — the verified library:
  - `text.rs`: characters, trimming, line splitting, integer parsing, ASCII case folding.
  - `order.rs`: the order in which contributors are listed.
  - `contributors.rs`: parsing `git shortlog` lines, grouping identities by email and building
    the contributor list.
  - `command.rs`, `error.rs`: the `git` commands the tool runs and the errors it reports.
  - `git.rs`: what each `git` command's output means: `HEAD` inspection, the safety checks,
    contributor discovery, commit information, trailers and the amendment.
  - `session.rs`: a run of the tool as a state machine from `git` answers to the next request,
    with the laws that `HEAD` is amended only after it, the operation markers and the index
    were checked again after the pick, and that cancelling changes nothing.
  - `picker.rs`, `fuzzy.rs`, `screen.rs`: the contributor picker, its fuzzy search through
    `nucleo-matcher`, and the texts it shows.
  - `summary.rs`: the line printed after a successful amendment.
- `tests/` — tests of the library on concrete values.
- `app/` — the program: argument handling, running `git`, the terminal interface.
