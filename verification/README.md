# Packo

Packo manages archives: it lists, extracts, tests, edits and creates them with the common
archive tools (`bsdtar`, `zip`, `unzip`, the decompressors of single compressed streams) and a
7Z encoder.

The rules of the program are a library verified with Verus (`src/`): how formats are recognized
from names, which volumes belong together, what a listing printed by `bsdtar` says, which
entries are safe to extract and where they go, the arguments every tool is run with, what a
request to compress is checked against, the state of a running task and the progress it
reports. Each public function states its result in its contract, and `src/laws.rs` proves the
properties that hold across functions.

`app/` is a small command line around the library: it reads the file system, runs the tools and
prints what the library computed.

Layout of `src/`:

- `text.rs`, `paths.rs`: characters, strings and Unix paths as the library models them.
- `formats.rs`, `names.rs`, `volumes.rs`: formats, file and folder names, split archives.
- `listing.rs`, `properties.rs`, `contents.rs`, `entries.rs`: reading listings and describing entries.
- `commands.rs`, `sources.rs`, `compress.rs`, `plans.rs`, `integrity.rs`: tool arguments and plans.
- `task.rs`: the state machine of a running task.
- `desktop.rs`, `windows.rs`: icons, applications, window labels and titles.
- `laws.rs`: properties across functions.
