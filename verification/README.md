# mailgun

A command line client for the Mailgun API, whose logic is verified with Verus.

- `src/` is the library. It decides which site's credentials a request uses (`config`, `sites`,
  `storage`, `config_commands`), which requests the commands make (`commands`, `client`), when a
  request is sent again (`retry`), how the pages of a list are put together (`paging`), and what
  the user reads (`report`, `message`, `stats`, `time`, built on `text` and the records of `api`).
  It does no input or output.
  The lists of bounces, complaints and unsubscribes are fetched page by page to their end; `-n` is
  the size of a page and the number of results that are shown.
- `tests/` holds its tests.
- `app/` is the program around it: arguments, the configuration file, sending, JSON and printing.
  The share of opened and clicked messages and the conversion of timestamps from floating point
  are computed there.

The library takes three things on trust, each behind one small function: lowercasing in the
standard library (`text::to_lowercase`), the text of an HTTP status (`retry::status_text`), and
the text of a date (`time::format_utc`).
