# blog

The verified core of a small blog server written with Leptos and Axum.

`src/` is a Verus library:

- `validation`: validation errors as nested structures, their flattening
  (`ValidationErrors::parse`) into per-field errors with `/`-separated
  locations, and the selection of the errors of one field
  (`FieldErrors::field`).
- `user`: the sign-up form and its rules (`SignupUser::validate`), and the
  user record built from database rows (`SqlUser::into_user`).
- `auth`: Argon2 password hashing and verification, and the answers to a
  sign-up or log-in attempt.
- `post`: a post assembled from its front matter and Markdown body.
- `error`: the errors of the server functions, with their HTTP status.
- `views`, `providers`: what the pages decide to show.
- `text`: string helpers (prefix tests, joining paths, decimal numbers).

`app/` is the server around it: routes, sessions, the database, the post
files, and the Leptos pages. `tests/` exercises the library.
