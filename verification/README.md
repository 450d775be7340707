# fordocu

Documentation of a directory for data collection. `fordocu` asks a few questions about
the case, lists the working directory with sizes, times and MD5, SHA-256 and SHA-512
hashes, verifies the checksum files and detached signatures it finds there, and writes
a plain-text report, which can be signed with GPG.

- `src/` is the library, verified with Verus: what is listed and what is left out,
  hashing piece by piece, recognising and reading integrity artifacts and judging
  them, the questions to the operator, the list of GPG keys, and the exact text of the
  report. Public proof functions whose names begin with `law_` state what holds across
  functions.
- `app/` is the command line tool around it: files, GPG, the terminal.
- `tests/` runs the library on concrete values.

MD5 comes from the `md5` crate, SHA-1 and SHA-2 from `sha1` and `sha2`, calendar dates
from `chrono`. Paths are taken to be separated by `/`.
