# deadpy

A dead code detector for Python. `src/` is the analysis library, verified
with Verus; `app/` is the command-line program around it (argument parsing,
reading `pyproject.toml`, walking directories, reading files in parallel,
printing).

Library modules:

- `syntax`: the concrete syntax tree the analysis reads.
- `treesitter`: parsing Python with tree-sitter and copying its tree.
- `mirroring`: trees of the same shape and content are analysed alike.
- `parser`: definitions, references and `__all__` entries of a module.
- `analysis`: which definitions are dead.
- `output`, `sorting`, `paths`: ordering and rendering findings.
- `config`, `discovery`, `whitelist`: settings, file selection, whitelist files.
- `glob`: glob matching through `globset`.
- `names`, `text`: a set of names and character-level string helpers.
- `laws`: properties of the library as a whole.
