# gateway_auth

Authentication for a web gateway, verified with Verus.

A request is let through by the first of these that it satisfies:

1. `Authorization: Bearer <token>`; the scheme is case-insensitive. Tokens are
   compared by the `subtle` crate, in constant time by that crate's own word; only
   the result of the comparison is part of what is proved here.
2. An OIDC token in a configured header, where OIDC is configured. Its signing
   key is fetched from a JWKS endpoint, or from one URL per key where the
   configured URL holds `{kid}`, and is used for one hour.
3. `?token=<token>`, on `GET` requests to the streaming endpoints
   `/api/chat/events`, `/api/logs/events` and `/api/chat/ws`.

Any other request is answered `401 Invalid or missing auth token`.

## Layout

- `src/` is the library. It does no input or output: where a key has to be
  fetched, `auth_middleware` says from where, and `resume_auth` goes on with what
  came back. Fetched keys are held in a `KeyCache`, one for all copies of a
  state. `src/external/` holds the calls into other crates; what they state
  is taken on trust, and everything else is proved.
- `app/` is the axum middleware around it: it fetches keys, shares them
  between requests, logs and answers.
- `tests/` runs the library with the real crates.

Properties that hold of all inputs stand in the modules they are about, as proof
functions whose names begin with `law_`.
