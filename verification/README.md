# pact_broker

A client for a pact broker: it follows the HAL links of the broker and fetches
the latest pacts of a provider.

- `src/` decides: which link to follow, which request to send, what a reply
  means. It sends nothing itself. `HALClient::navigate` and
  `fetch_pacts_from_broker` hand out one request at a time and go on with the
  reply. Everything in it is verified with Verus; the calls into `serde_json`,
  `hyper`, `regex` and the standard library that it rests on are the functions
  marked `external_body`.
- `app/` sends the requests with `hyper`.
- `tests/` runs the library against a broker that is a table of responses.
