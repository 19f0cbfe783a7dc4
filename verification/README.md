# fiducia_admin

The operator-only admin plane of fiducia.cloud: request checks, sessions,
admission, the local-first sync write path, infrastructure and notice actions
with their audit trail, cluster insight and cron diagnostics.

`src/` is the library. The decisions of the service are in it, written in Verus
with its contract: it takes plain values, and where a decision waits for the
outside (the database, the brain, the nodes, Shared Auth) it is a machine that
says what to do next and takes what came of it. `app/` is the server around it:
routes, HTML templates, HTTP calls, SeaORM.

| Module | What it decides |
| --- | --- |
| `text`, `calendar`, `json`, `headers`, `clock` | texts, dates, JSON values, header values, the time |
| `config`, `cookies`, `response_headers` | settings, cookies, response headers |
| `request_security`, `guards` | exact host and origin, CSRF tokens, the checks before a mutation |
| `session`, `login`, `admission` | whose request it is, signing in and out, who may operate |
| `fingerprint`, `sync`, `sync_transaction`, `streaming` | queued writes, their transaction, catch-up, the sync socket |
| `sync_laws` | what the write path promises as a whole |
| `records`, `infra`, `notices`, `audit` | operator actions, recorded together with their audit entry |
| `upstream`, `cluster_insight`, `shard_merge`, `observability`, `insight_json`, `cluster_api` | what is asked of the other services, and what is made of the answers |
| `cron_debug`, `cron_redaction` | cron diagnostics for one tenant, and what is shown of them |
| `views`, `cluster_views` | what the pages show |

Proof functions whose names begin with `law_` state what holds of several
functions together.

What the outside crates compute is named, not modelled: `json_parsed` and
`json_text` are `serde_json`'s reading and writing, `url_parts` is `url`'s
parser, `url_origin`, `url_with_segments`, `url_with_pair` and their like are its
other operations, and
`hmac_sha256`, `sha256_hex`, `base64_text` and `uuid_number` are what those
crates return. The functions that make such a call
say so above their contract.
