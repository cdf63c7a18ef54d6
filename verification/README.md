# Branchgate

Branchgate promotes merged changes from one branch to another selectively:
it lists the merged changes of a source branch that the target branch does
not carry yet (matched by patch identity, so cherry-picked changes are
recognised), cherry-picks the chosen ones in merge order onto a new branch
made from the target, recording each change as promoted at the commit it
became, and leaves that branch ready to merge without touching the target
itself. A run that stopped on a conflict can be resolved in an editor and
continued, or abandoned.

## Layout

- `src/` — the library, verified with Verus. It holds every decision the
  application makes:
  - `text` — character-level text handling with the semantics of the `str`
    methods that Git output is read with;
  - `order` — stable insertion sort and its properties;
  - `git` — reading Git's output (branches, history, numstat, `git cherry`),
    and the multi-command Git procedures as step functions (`GitStep`):
    creating a branch, computing a patch identity;
    `git::runner` chooses native Git or WSL Git per repository and builds
    the command line; `git::commands` builds the argument lists of the
    single commands; `git::promote` holds the promotion-time Git steps;
  - `sync` — refreshing a pipeline: which changes are already on the target,
    which pending ones have left the source, what is stored;
  - `promote` — a promotion run and the continuation of a stopped run as
    state machines that ask for Git work and say what to store, plus the
    checks, conflict bookkeeping and abort plan;
  - `settings`, `editors`, `analytics`, `repos`, `history` — the rest of the
    application's rules.
- `app/` — ordinary Rust around the library: the SQLite database, running
  Git and editors as processes, the analytics endpoint, and the commands.
- `tests/` — tests of the library on concrete values.

Outside crates are called from the library through a few trusted wrappers
(`serde_json` for the changed-files list, `chrono` for the branch-name time
stamp, `str::to_lowercase` and `String::push` from std); every other
function in `src/` is verified against its contract.
