# sonicbrew

The core of an audio server: a graph of audio nodes that is controlled over HTTP,
fed by browsers over WebSockets and by ALSA clients through an I/O plugin.

`src/` is a library whose functions carry contracts that Verus proves.

- `control`: nodes, links and presets; the controller over a session store, and what
  an HTTP request is answered.
- `engine`: building a graph from a topology, running it, swapping in a rebuilt one,
  and the ring bridge of a gateway.
- `graph`: the boundary to the real-time graph and its rings. All that is taken as
  known of those crates stands here.
- `gateway`: what the two gateways share, and the ring nodes that they add to a graph.
- `browser`: the binary frame format and the session of a browser client.
- `alsa`: sample formats and the negotiation of hardware parameters.
- `alsa_plugin`: configuration, handshake, connection and transfer of the plugin.
- `nodes`: what audio nodes do besides arithmetic on samples. Samples are of any
  type that can be copied.
- `text`, `wire`, `address`, `port`, `frame`: texts, bytes and small values.

A sample that crosses a wire is the bit pattern of a 32-bit float. The proof
functions whose names start with `law_` state what holds across several functions.

`app/` is ordinary Rust around the library: sockets, servers, threads, JSON, the C
interface of the plugin, and the arithmetic of the nodes. `tests/` holds the tests.
