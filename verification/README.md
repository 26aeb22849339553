# codexbar

Usage tracking for AI coding tools, verified with Verus.

- `src/` is the library. It reads what Cursor's servers say of a user's usage
  (`cursor`), decides step by step whom to ask and what to make of each answer
  (`cursor::auth`, `cursor::fetch`), and keeps a usage log of one record per line
  from which trends are read (`usage_log`).
- `app/` does what the library asks for: files, requests, the credential store,
  JSON, and the floating-point arithmetic on the figures that the library chose.
- `tests/` run the library on concrete values.

Numbers that servers and logs report as binary64 are held by their bit patterns
(`binary64`), so that their order and range are proved and nothing is rounded.
Points in time (`timestamp`) are those that the `chrono` calendar holds, leap
seconds included.

Laws that relate several functions are public proof functions whose names begin
with `law_`.
