# bob-management

The verified core of the management server of a BOB cluster.

- `src/` is the library, verified with Verus: the query-parameter form of
  the node DTOs (`form`, `connector::dto`), the answers and errors of the
  node API (`connector::api`, `connector::error`), the client of a node and
  of a cluster (`connector::client`, `connector`), the statuses, problems and
  typed maps of the cluster (`models`), authentication and the summaries of
  the API (`services`), routes and their check against the API's
  documentation (`router`), and small pieces of the command
  line and of the web pages (`cli`, `server`).
- `app/` is the server program around it: configuration and logging, the
  HTTP requests to the nodes, JSON, sessions and the axum handlers.
- `tests/` runs the library on concrete values.
