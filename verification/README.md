# matrix_rust_p2p_client

A Matrix client without a server. Every node runs its own homeserver, answers its client's requests
from it, and shares the responses with the nodes around it.

`src/` is the verified library: the decisions of a node.

- `route`, `endpoint`, `json`, `process`: what becomes of one request, from its URI to the
  homeserver call and on to the result, with the registration that answers a challenge.
- `server`: the loop that serves the local client.
- `peers`: the loop that talks to the other peers, and what discovery changes.
- `startup`: starting a node, step by step.
- `client`: the client that sends its requests to the node.
- `report`: what a node tells its operator.
- `message`, `text`: HTTP messages and text as plain values.
- `laws`: what holds of the client and the two loops together.

Each loop is a function from where it stands and what has happened to where it stands next and what
it does. `app/` performs those actions with libp2p, tokio, the conduit homeserver and matrix-sdk.

The functions that call outside crates are marked `external_body`; their doc comments say what is
taken on trust.
