# GCP service-account impersonation

A credential issuer for a gateway. It mints short-lived GCP credentials for each
caller: the gateway authenticates with a base identity of its own, impersonates a
target service account chosen by mapping the caller's identity, and hands out an
OAuth2 access token or an OIDC ID token.

`src/` is the library. Verus proves its contracts; those of the wrappers in
`outside` are taken on trust.

| Module | What it holds |
|---|---|
| `config` | the operator's configuration, its defaults and its rules |
| `identity_mapping` | from a caller to the email of a service account |
| `plugin` | who may have which account impersonated, and what is issued |
| `client` | requests, replies, the base token and its cache |
| `laws` | what holds of the parts together |
| `protocol` | what the gateway and the issuer exchange |
| `name_map`, `text` | maps from names, and texts |
| `outside` | the calls into `chrono`, `base64` and `serde_json`, on trust |

`app/` runs the library: HTTP, JSON, logs and metrics. `tests/` holds the tests of
the library.

## Who may have what

- An account that comes from the caller (`subject_id`, `from_role`, `template`)
  takes a caller with trust level `verified`, a well-formed
  `*.gserviceaccount.com` email and, where the target has
  `allowed_service_accounts`, a place on that list.
- Static and fallback accounts are fixed by the operator and exempt from the
  trust level and the list.
- Delegates are fixed by the operator.
- The API is called over TLS, or on this machine. The metadata server is the one
  other host that may be called without TLS, and only for the base token.
- Failures of the API are told by HTTP status and error status; the message is
  never passed on.
