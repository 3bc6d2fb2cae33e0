# fixit

A library that proposes fixes for a shell command that failed, with its behaviour stated in
Verus contracts and proved, and a command-line program around it.

- `src/` is the verified library:
  - `text` — character-level string functions (search, trimming, lines, joining, decimal
    notation, text order) with their specifications;
  - `shlex` — splitting a command line into words, with the laws that words are never empty, that
    only separating white space is dropped, and that splitting the joined words gives them back;
  - `rules` — the rules, each with an exact specification, and the search that applies them to
    every output line and ranks the proposals by edit distance;
  - `get_text` — finding the command's output in a terminal scrollback, the order in which the
    multiplexers and terminals are asked and the step of that search, the terminal queries and the
    outcome of running the command again;
  - `cmd`, `check_update` — the argument types of the subcommands, the alias rendering and the
    decisions of the update check;
  - `packaging` — the texts of the release packaging recipes, with the SHA-256 checksum of the
    source tarball.
- `app/` is the program: argument parsing, terminals, processes, files and the network.
- `tests/` runs the library on concrete inputs.
