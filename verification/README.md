# gal

A monitor for GitHub Actions runs in the terminal.

- `src/` is the library: what is known of the runs and what is to be fetched next, how archives of
  logs are searched for the output of a failed step, how ages and durations are told, how
  repositories are named, and what is shown where on the screen. It is verified with Verus, but for
  small functions around calls into other crates, whose contracts are trusted.
- `app/` is the program around it: arguments, the terminal, the network and the browser.
- `tests/` runs the library on concrete values.

Every function of the library states in its contract what it returns or changes. What is trusted of
another crate stands in the doc comment of the function that calls it.
