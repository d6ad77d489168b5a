# oxideforms

A small, self-hosted, file-driven form service. Forms are `.json` files in a
directory (the file name is the form's UUID and route); answers are stored in
SQLite; an admin view behind a password shows the answers of a form.

## Layout

- `src/` — the library, verified with Verus:
  - `text`, `num`: trimming, splitting, case folding, decimal formatting and
    parsing, specified over `Seq<char>`.
  - `auth`: the signing key, the HMAC-signed session token and its check,
    password comparison.
  - `i18n`: the UI languages, their strings, and how a request's language is
    chosen (cookie, then `Accept-Language`, then English).
  - `values`: submitted values as a multi-value map.
  - `forms`: form definitions, validation, the stored answer record and how a
    stored answer reads in the admin table, the registry of loaded forms.
  - `templates`: the data and computations of each page view.
  - `handlers`: cookies, parameters, and what each request is answered with,
    one step at a time.
  - `watch`: the fingerprint of the forms directory used for hot reload.
  - `db`: the submission row type.
- `app/` — the server around the library: configuration, axum routes, the
  SQLite store, reading form files, JSON (de)serialisation, askama views.
- `tests/` — tests of the library.
