# furcate-mesh

A LAN peer fabric for small machines. Peers find each other over mDNS, share
models over a content-addressed transfer, and route inference work to peers that
already have the model loaded. There is no central server.

The library (`src/`) holds the rules of the fabric, written in Rust and proved
with Verus: every function states in its contract what it returns or changes.
Opening sockets, reading files and keeping time is the business of the program
around it (`app/`), which performs the actions that the library asks for and
hands back what happened.

| Module | What it holds |
|---|---|
| `peer`, `clock`, `event`, `config` | Peer addresses, hybrid logical clocks, mesh events, configuration and shared errors |
| `wire`, `hexcode`, `base64url` | The text forms of keys and opaque bytes |
| `transport` | Key expressions, session settings, the forwarding of subscriptions |
| `routing` | Which peer serves a request |
| `discovery` | Seed lists, mDNS service records, the discovery service |
| `identity`, `tls`, `ed25519` | The key file, and who may connect to whom |
| `transfer` | Chunks, digests, the serving of queries, the sender's and the receiver's side of a transfer |
| `observe`, `table` | What the command line shows |
| `extensions` | What discovery backends and work brokers exchange |
| `text` | Operations on text that the rest is stated with |

Proof functions whose names begin with `law_` state what holds of the fabric as
a whole: that nothing but the requested bytes enters the cache, that a transfer
rebuilds the file it was given and that later replies do not disturb it, that
every query is answered from what is hosted when it comes, that a subscription
yields one item for each payload, that the seeds come before any mDNS work, that
two routers with the same knowledge pick the same target, and so on.

What the library takes from other crates (`hex`, `base64`, `blake3`,
`ed25519-dalek`, `rustls`, `serde_json`, `mdns-sd`) goes through small functions
marked `external_body`; the comment above each says what is claimed of the call.
