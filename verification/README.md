# reverse_proxy

A TLS-terminating HTTP reverse proxy. Each incoming request is routed by
its host to an upstream target named in a JSON configuration, and sent on
over HTTP/1 or HTTP/2, with or without TLS.

- `src/` is the verified library: the configuration and its address table
  (`config`, `reverse_proxy`), the URI model and `host:port` rendering
  (`uri`, `text`, `paths`), the routing decision for a request and the
  answers the proxy gives itself (`response`), and properties of the whole
  (`laws`).
- `app/` is the program around it: reading the configuration file, the
  TLS listener, the `hyper` service, and the upstream connections.
- `tests/` exercises the library on concrete values.
