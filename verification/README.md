# stock_predict

The rules of an A-share stock predictor, verified with Verus: symbol and
market mappings, the trading calendar, the announcement archive and its
paging, the popularity list, strategy compositions and their normalisation,
back-test sampling and hit counting, the alert engine, the screener's
filters and the user store's migrations.

Layout:

- `src/` – the verified library. Each public function states its result in
  its contract; laws that relate several functions are public proof
  functions (`law_*`). Calls into `chrono` and a few std string functions
  stand behind small trusted wrappers whose doc comments say what they
  claim.
- `tests/` – tests of the library on concrete values.
- `app/` – the unverified shell: HTTP and disk access, SQLite, the
  floating-point signal models and the serde copies of the library's
  records.
