# selfhosted

The orchestration core of a desktop application that runs self-hosted workloads
(websites, databases, file shares) as Docker containers, publishes them through a
Traefik reverse proxy and quick tunnels, and keeps their secrets in an encrypted vault.

`src/` is the library, verified with Verus:

| module        | what it holds |
|---------------|---------------|
| `text`        | string helpers with exact specifications (decimal notation, `u16` parsing, trimming, splitting on white space, replacing, prefix/suffix tests) |
| `foreign`     | the trusted calls into `aes-gcm`, `base64`, `rand`, `uuid` and `String::from_utf8` |
| `keyed`, `env`| maps kept as lists with unique keys; a workload's environment variables |
| `vault`       | master-key handling, AES-256-GCM sealing of secrets, password generation |
| `session`     | the registry of tracked sessions: registration, status updates, expiry, recovery, throttling queries |
| `runtime`     | workload descriptions, the arguments of every `docker` call, preparation of a workload for launch |
| `marketplace` | the template registry and the step-by-step deployment of a template as a stack |
| `network`     | quick tunnels: ids, `cloudflared` arguments, reading the public URL, restoring tunnels |
| `proxy`       | the Traefik container and its route files |
| `db`          | the records kept in the database and the schema migration plan |
| `policy`, `worker`, `telemetry` | alerts, expiry actions and telemetry helpers |

`app/` is the Tauri shell around it: commands, the SQLite database, the OS keyring,
process spawning, timers and the floating-point telemetry.
