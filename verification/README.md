# rari_server

Observability of a server-side rendering server, as a verified library:

- request duration histograms per route (`metrics_http`, `labels`, `seconds`,
  `histogram_laws`),
- the metrics page in Prometheus text format (`metrics_page`, `allocator`,
  `page_laws`),
- heap profiles on demand, behind a token (`heap_dump`),
- the agent that pushes a heap profile to Pyroscope every minute (`pyroscope`,
  `pusher_laws`),
- the agent that connects to a profile gateway and answers its requests
  (`gateway`, `gateway_agent`, `gateway_laws`, `agent_laws`),
- the requests and responses of the component endpoints (`types`).

`src/` decides and computes. Each of its functions says in its contract what it
returns, and the modules ending in `_laws` state what holds over many calls.
Calls into `dashmap`, `url`, `serde_json`, `base64` and `tikv-jemalloc-ctl` stand
behind functions whose contracts are believed; their doc comments say what is
claimed of the crate.

`app/` reads the environment and the clocks, holds the histograms of the process,
dumps profiles, and speaks HTTP and web sockets. Durations are turned into
floating-point seconds there and nowhere else.
