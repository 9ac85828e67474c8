# hyper-reverse-proxy

A reverse proxy, to be used with hyper, whose decisions are verified with Verus.

Hop-by-hop headers are stripped in both directions, those that the `Connection` header lists
among them, and the client's IP address is added to the comma-space-separated list of forwarding
addresses in the `X-Forwarded-For` header.

* `src/` is the verified library: what is sent to the backend, what goes back to the client, and
  when a switch of protocols is accepted.
  * `text`: splitting, trimming and case folding
  * `header_map`: what is used of hyper's header map, and what is trusted of it
  * `hop`: the hop-by-hop headers
  * `upgrade`: the protocol that a message asks to switch to
  * `uri`, `message`: what the library sees of URIs, requests and responses
  * `forward`: the address that a request is forwarded to
  * `proxy`: the proxied request and the proxied response
  * `call`: the course of one call, as a state machine
  * `error`: why a request could not be proxied
* `app/` performs the actions of `call` with hyper's client and connections: `ReverseProxy` and
  the async `call`.
* `tests/` runs the library on concrete messages.
