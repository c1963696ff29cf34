# orchestrator

An HTTP orchestrator that routes each request to a docker container of the
service its path belongs to. Every image has a load balancer that picks its
containers round robin; when an image has no container yet, one is created and
started, and requests are held until the container announces that it is ready.
Routes, port reservations, containers and request traces live in Postgres.

## Layout

- `src/` is the verified library (Verus).
  - `utils/keyed_map.rs`: a string-keyed map with distinct keys, viewed as a `Map`.
  - `models/`: containers, images, routes and the load balancer of an image
    (round robin, request queue, awaited containers, validation against docker).
  - `controllers/`: setting up an image's load balancer step by step, creating
    containers, forwarding, and reading routes, images and load balancers from
    query rows.
  - `handlers/route_to_service_handler.rs`: the decisions of the request handler and
    of the readiness announcement, and the laws that tie them together.
  - `db/`: table and column names and the SQL statements built from them.
  - `utils/`: decimal and UUID text, docker state names, HTTP status codes.
- `app/` runs the service: environment, Postgres, docker, HTTP, and the loops that
  carry out the library's decisions.
- `tests/` exercises the library on concrete values.
