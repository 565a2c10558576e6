# presentation

The HTTP presentation layer of a to-do service, written in Verus.

`src/` is the verified library:

- `errors`: the error answers (problem documents and plain-text 404s) and how
  application failures map onto them, internal ones without their details.
- `etag`: entity tags of item versions and the `If-Match` parser of updates, with
  the proof that every tag the service sends reads back as its version.
- `health`: the startup, liveness and readiness answers.
- `audit`: who may read deleted items for audit.
- `payload`: request payload wrappers and UUID path segments.
- `observability`: settings validation, request ids and request metrics decisions.
- `text`: byte and character text helpers the above are proved with.

`app/` runs the library in an axum server: routing, extractors, responses,
tracing, the Prometheus recorder and the request middleware.
