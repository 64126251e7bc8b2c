# eve-mumble-bridge

Lets EVE Online pilots log in to a Mumble server with their EVE SSO identity.
A browser is sent through EVE SSO (with PKCE) and shown a page of `mumble://`
links carrying its credentials; the Mumble auth plugin then calls `/auth`,
which re-verifies the token, checks the whitelist and answers with the
pilot's id, display name and groups.

Layout:

- `src/` is the verified library, checked with Verus. Each endpoint's
  decisions are a step function from state and event to the next state and
  action (`login::login_step`, `picker::callback_step`, `auth::auth_step`);
  the whitelist, the password encoding, the token checks, the configuration
  checks, the picker page and the caches carry contracts over mathematical
  models. Calls into base64, flate2, sha2, rand, url and jsonwebtoken (its
  header decoding and its key construction) go through small trusted
  wrappers whose contracts state or name what those crates return. The
  token's signature and claims check, `jsonwebtoken::decode`, parses the
  claims with serde and so runs in `app/`, with the rules the library
  computes (`eve::token_rules`).
- `app/` is the service around it: the HTTP server, the HTTP clients, file
  I/O, the clock, and the serde forms of the library's records. It performs
  the actions the step functions ask for and hands back what happened.
- `tests/` runs the library on concrete values.
