# twr — terminal web reader, verified core

`twr` reads web novels and articles in the terminal, with per-site plugins,
saved reading positions, bookmarks, and a "boss key" that swaps the reader for
a fake server log.

The crate is written in Verus. `src/` is the library. Its own functions are
proved against their contracts; the calls into outside code (the `url`,
`scraper`, `dom_smoothie` and `textwrap` crates, and a few std functions for
strings and clocks) stand behind `#[verifier::external_body]` wrappers and
`assume_specification` items whose contracts are trusted, not proved, and
whose doc comments say what each one claims:

| module        | what it holds |
|---------------|---------------|
| `text`        | character-level utilities (search, replace, trim, lines, numbers, clock text) |
| `weburl`      | `WebUrl`: a parsed URL as plain values, made by the `url` crate |
| `html`        | elements picked from an HTML document by a CSS selector (`scraper`) |
| `plugin`      | pages, articles, the `SitePlugin` interface and the first-match registry |
| `generic`     | the catch-all plugin: readability extraction, `rel`/text navigation |
| `sangtacviet` | the sangtacviet.vip plugin: chapter URL arithmetic and extraction |
| `state`       | per-domain reading history and bookmarks |
| `boss`        | the fake log: xorshift-driven lines, at most 256 kept |
| `layout`      | chapter body layout, header path, status fragments |
| `reader`      | the reader's state machine: modes, keys, scrolling, page turns |

`app/` is the program around it: command line, the state file on disk,
HTTP and headless-browser fetching, the terminal loop and drawing.
`tests/` exercises the library on concrete values.
