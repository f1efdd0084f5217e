# shoka

A repository workspace manager: it clones repositories into one tree, keeps a
shelf of them, finds its way between them, runs commands across them, and shows
the state of all of them on one screen.

The library under `src/` is written in Verus. What it decides and computes is
stated in contracts and proved:

| Module | What it holds |
| :--- | :--- |
| `text`, `seqs`, `fspath` | texts, sequences and paths |
| `config` | the configuration: profiles, routes, layouts |
| `paths` | where the configuration, the shelf and the cache live |
| `remote` | URLs and shorthands, and the remote that they name |
| `state` | the shelf |
| `cache` | what was last seen of each checkout |
| `gh`, `git_status` | the state of a repository on GitHub and on disk |
| `actions` | fetch and push |
| `updater` | new releases of the program |
| `cli`, `commands` | the commands and their arguments |
| `commands::tui` | the dashboard: rows, ranking, keys, and what is shown |

A function named `law_...` states and proves a property that spans several
functions. The few functions marked `external_body` call another crate or the
standard library; what is claimed of each call stands in its `ensures`, and the
comment above it says so in words.

`app/` is the program around the library: arguments, files, the network and the
terminal. It hands the library plain values and does what the library decides.
`tests/` runs the library on concrete values.
