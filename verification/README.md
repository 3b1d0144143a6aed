# locsim

A command-line location simulator: it resolves a place name, coordinates or a
saved bookmark into a location and hands it to the operating system, Android
emulators and browser test harnesses.

The decisions of the program are a library verified with Verus; the program
around it performs the I/O.

## Layout

- `src/` — the verified library.
  - `text.rs`: white space, trimming, splitting, word cutting, line reading
    and the order of texts, over the character view of strings.
  - `config.rs`: geocoder providers, configuration files, environment and
    command-line overrides with their precedence, and the data file paths.
  - `bookmarks.rs`: the bookmark store, ordered by name, with
    case-insensitive lookup and deletion.
  - `geocode.rs`: query preparation, HTTP status judgement, reading provider
    responses into a place, API key requirements, error messages and the
    cache of resolved queries.
  - `location.rs`: labels with fallbacks and address wrapping for display.
  - `platform.rs`: GPX documents with XML escaping, the `adb devices`
    reader, and the state machine that sends geo fixes to emulators.
  - `commands.rs`: what the command line asks for, and prompt and menu answers.
- `tests/` — tests of the library on concrete values.
- `app/` — the `locsim` program: argument parsing, HTTP requests, JSON and
  TOML files, floating-point coordinates, terminal output and the `adb`
  processes.

Each law that the library keeps (configuration precedence, bookmark and cache
read-after-write, escaping, wrapping width, geo-fix progress) is a public
proof function next to the code it speaks of.
