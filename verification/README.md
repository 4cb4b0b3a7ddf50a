# platform_rs

A small server-side-rendered web platform (login, sign-up, sessions, a
greeting page) whose decisions are written in Verus and proved.

- `src/` is the verified library:
  - `routing`: routes that know their path, and `build_url`, which joins a
    prefix and a route and appends the query parameters, gathered by name
    (a later value replaces an earlier one), written as `name=value`,
    sorted and joined by `&`;
  - `text`: text helpers (taking out a character, comparing in code point
    order) and the lemmas about that order;
  - `environment`: reading unsigned integers as `str::parse` does, and the
    values of boolean, text and numeric settings;
  - `bootstrap`: the application secret, the session cookie settings,
    and reading a dotted IPv4 address into a socket address;
  - `authn`: users, bcrypt password hashing and checking, the stored
    record of a new user, the account route table, and the login flow as a
    state machine (state and event to next state and action) with its laws;
  - `http`: the authentication guard and the content security policy;
  - `session`, `templates`, `forms`, `dashboard`.
- `app/` is the server around it: axum routing and middleware, sqlx
  queries, the cookie session store, sailfish templates, tracing, and the
  environment reads. It runs the login flow of the library, performing each
  action the library asks for.
- `tests/` exercises the library on concrete values.

The HTML templates (`templates/*.html`) of the server are not part of
this tree.
