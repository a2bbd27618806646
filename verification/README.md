# unicorn_rules

Three lint rules for JavaScript and TypeScript, verified with Verus.

- `no_unnecessary_string_trim`: `String#trim()` before `startsWith()` or `endsWith()`.
- `prefer_array_from_range`: `[...Array(length).keys()]` instead of `Array.from({length}, …)`.
- `prefer_array_slice`: `splice()` where the code only reads the returned array.

`src/` is the library. A rule takes a program as a `LintContext` (`ast`) and the id of a node, and
gives what it reports there (`diagnostic`). Each rule has a specification function that says what
is reported (`trim_report`, `range_report`, `slice_report`), and its `run` is proved to report
exactly that.

What the rules ask about a value lies in `string_type`, `receiver_kind` and `static_length`. These
walk from name to name within a budget of hops (`resolution`); `hop_budget` states the laws of
that budget. `trimming` states why a reported `trim()` can be replaced.

The library does not calculate with floating point. It holds a known length as the calculation
that gives it, and numbers by their encodings (`double`). `PreferArrayFromRange::run_with` takes the
arithmetic of doubles as a function; a length without arithmetic needs none.

`app/` reads programs with `oxc_parser` and `oxc_semantic`, runs the rules and gives
`OxcDiagnostic`s. `tests/` runs the rules on source code and the parts of the library on values.
