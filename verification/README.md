# spoke-connect

The session rules of the SPOKE connect protocol, verified with Verus.

`src/` is the verified library:

- `session` — outbound / inbound sequence counters (2⁵³−1, never wrapping),
  the `(peer_id, nonce)` replay store, the allowlist, the dispatch gate and
  response correlation.
- `endpoint` — one end of an established session: lifecycle, bound session,
  outbound grants, the inbound admission (peek → authenticator → advance) and
  the table of invokes awaiting a response, with the session laws.
- `receive`, `serve` — the receive-loop step, request-first classification,
  dispatch decisions of both ends, the port catalogue, the tool success shape
  and the settlement of outbound invokes.
- `dial` — the dialing adapter's and the responder's handshake decisions and
  the node's hello accept gate.
- `handshake` — both handshakes as step functions (state and event to next
  state and action), with their order and close-on-failure laws.
- `node_rules` — the connect node's connection, hello and inbound-invoke rules.
- `router`, `registry` — capability-based peer selection and the multi-peer
  registry with its composed manifest views.
- `channel` — the in-memory loopback connection.
- `json`, `json_text`, `text`, `order`, `manifest`, `reject`, `errors`,
  `adapter`, `lifecycle`, `identity` — the plain-value model, compact JSON
  text, string helpers, UTF-8 byte order, manifests, rejections, error
  vocabularies and the hello identity material.

`app/` holds the async runtime around it: the transport seam and loopback
pair, the `serde_json` bridge, the process-wide accepted-hello store, the
session driver and the dial and responder handshake drivers. `tests/` exercises the library from outside.
