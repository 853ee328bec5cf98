# fuji

Dumps the RomFS of a Nintendo Switch title's content archive (NCA) with
hactool. The library in `src/` holds the decisions, verified with Verus:

- `util::path` — paths as bytes: their components and `PathBuf::push`,
  with the laws that relate them;
- `util` — titles, key files, and `NcaExtraction`, the steps of an
  extraction and the result each outcome leads to;
- `util::nx` — the console: mounting the content filesystem a resolved path
  names, decoding the resolver's path buffer, and `TidNcaLookup`, the order
  of the location-resolver calls;
- `util::pc` — a development machine: no mounting, a fixed test archive,
  product keys below the home directory;
- `redirect` — whether redirecting a standard stream with `dup2` worked.

`app/` is the program: it makes the libnx, hactool and libc calls that the
library's steps ask for.
