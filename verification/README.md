# debrid_gateway

The decision logic of a streaming-provider gateway, written in Verus.

- `src/usenet_cache.rs`: keys and entries of the cache of resolved usenet URLs.
- `src/debrid_cache.rs`: status and submission of cached info hashes, with the
  laws that tie the two together.
- `src/device_auth.rs`: device-code authorisation with Real-Debrid and DebridLink.
- `src/premiumize.rs`: the Premiumize OAuth flow and its result page.
- `src/exchange.rs`, `src/json.rs`, `src/text.rs`: the values that the routes
  exchange, JSON and plain text.
- `src/outside.rs`: the calls into other crates, with their contracts.

A route that talks to a store or to a provider comes in two halves. The first
takes the client's request and says what to send, or answers at once. The second
takes what came back and gives the answer. `app/` runs the two halves around the
actual network calls.
