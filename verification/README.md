# tokendog_router

An LLM inference gateway: it spreads requests over worker replicas by a
load-balancing policy, optionally splits them into a prefill and a decode
stage (vLLM or SGLang style), checks bearer tokens, probes worker health and
can discover workers from Kubernetes pods.

The routing logic is a Verus library whose functions carry `requires` /
`ensures` contracts proved by Verus:

- `src/policies` – the load-balancing policies, the in-flight counters and
  the prefix/session cache directory;
- `src/server.rs` – the routing state: worker pools, policies, health flags;
- `src/routes` – the prefill/decode pipelines as steps from state and
  outcome to the next request, request rewriting, logprob merging;
- `src/proxy` – hop-by-hop header filtering, routing context, proxy errors;
- `src/service_discovery` – pod classification, worker pools and the
  reconciliation of known pods against the cluster's list;
- `src/config` – configuration, API-key authentication, log rotation rules,
  name validation;
- `src/json.rs`, `src/net.rs`, `src/text.rs` – a JSON value model, URL
  handling and string helpers.

Calls into outside crates (`rand`, `sha2`, `subtle`, `url`, `flate2`) sit
behind small trusted wrappers whose contracts say what those crates document.

`app/` is the binary around the library: command line, HTTP server, the
network calls, health probing loop, the Kubernetes watcher and the log
writer. It is ordinary Rust and hands plain values to the library.

`tests/` runs the library on concrete inputs.
