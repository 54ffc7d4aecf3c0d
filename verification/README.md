# swiss_transport_mcp

An MCP server for Swiss public transport data over standard input and output. It answers
from three services of opentransportdata.swiss: the OJP 2.0 journey planner (stations,
trips, departure boards), the GTFS Realtime feed (live data and disruptions) and the train
formation service.

The logic is a library that is verified with Verus; what it promises stands in the
`requires` and `ensures` of its functions and in its public proof functions, whose names
begin with `law_`.

- `src/api/ojp`: the documents that are sent to the journey planner, the readers of its
  answers, and what the client remembers between questions.
- `src/api/gtfs_rt.rs`, `src/api/gtfs_realtime`: the live feed.
- `src/api/formation`: which formations to ask for, and how a train is shown.
- `src/service`: what the tools decide, from their arguments to their answers.
- `src/mcp`: framing, requests and responses, and the tools as they are announced.
- `src/cache.rs`, `src/order.rs`, `src/text.rs`, `src/json.rs`, `src/xml.rs`,
  `src/time.rs`, `src/pattern.rs`, `src/identifier.rs`: what the rest is built on.
- `app`: the program around the library: the command line, the connection to the client,
  and the requests to the services.

A function that calls another crate, or a part of the standard library whose behaviour is
not known to the verifier, has a comment that says what is taken for granted of the call.
These functions stand in `src/cache.rs`, `src/identifier.rs`, `src/json.rs`,
`src/pattern.rs`, `src/text.rs`, `src/time.rs`, `src/xml.rs`, `src/mcp/framing.rs` and
`src/api/ojp/suggest.rs`.

The tokens are read from `OJP2_TOKEN`, `GTFS_RT_TOKEN` and `FORMATION_TOKEN`, or from the
variables that `OJP2_TOKEN_ENV`, `GTFS_RT_TOKEN_ENV` and `FORMATION_TOKEN_ENV` name; flags
override them.
