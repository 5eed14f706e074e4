# test_that

Matchers for test assertions — equality and ordering, strings and regular
expressions, options and results, and containers matched item by item, in
order or in any order — whose matching rules and failure messages are proved
in Verus against mathematical specifications.

## Layout

- `src/matcher.rs`: `MatcherResult` and the `Describable` and `Matcher`
  traits. Every matcher states, as spec functions, which values it matches,
  how it describes itself and how it explains a value.
- `src/assertions.rs`: `verify_that`, which checks a value against a matcher
  and builds the failure message.
- `src/value.rs`, `src/text.rs`: how values are rendered (`{:?}`, `{:#?}`,
  `{}`) and compared, and the layout of multi-line messages.
- `src/collection.rs`: the containers which container matchers read.
- `src/matchers/`: the matchers. `containers/container_contains/` holds the
  matchers of a container against a list of matchers, in order (a greedy
  scan, proved to decide whether an order-preserving correspondence exists)
  and in any order (a backtracking search, proved to decide whether a
  one-to-one assignment exists), and the properties relating them.
- `src/error_source.rs`: errors built with `anyhow`, read as their chain of
  messages.
- `app/lib.rs`: entry points taking floating point values, which reach the
  library through their bit encoding.

The `anyhow` and `regex` crates are called behind trusted wrappers whose
contracts state what their documentation promises.
