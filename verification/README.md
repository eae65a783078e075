tokio-dtls-example: Datagram TLS in Tokio, verified with Verus
======================================================================

A simple DTLS client and server. The client forwards lines from standard
input to the peer, and prints data from the peer to standard output. The
server echoes each line back to the client with "Echo: " prepended.

While UDP itself is connectionless, DTLS effectively adds a connection
layer: state is kept in the server for each "connected" peer. A
`UdpServer` manages the UDP socket, and dispatches incoming datagrams to
child streams, which are handled individually by each DTLS session.

Layout
----------------------------------------

- `src/` is the verified library. It does no I/O: `UdpServer` and the
  sinks say what to ask of the socket or the sink that they wrap, and go
  on with its answer.
  - `udp`: the server, its streams, and a connected socket.
  - `model`: the state machine that the contracts of `udp` speak of.
  - `laws`: what follows from it for one call of the server, such as that
    an incoming datagram is delivered or parked unless its stream is
    closed to it.
  - `history`: what follows for any sequence of polls, such as that a peer
    has one open stream, and that the stream and the socket get what was
    sent to them, in order.
  - `util`: sinks that keep datagrams apart.
  - `hex`, `message`, `args`: hex dumps, messages, the command line.
  - `buffer`, `channel`: what the library takes on trust of the `bytes`
    and `futures` crates.
  - `net`, `poll`: addresses and outcomes.
- `app/` is the program: sockets, TLS, tasks and the terminal. The server
  reads its certificate and private key from `server-cert.pem` and
  `server-key.pem`.
- `tests/` runs the library, with the real channels and buffers.

Usage
----------------------------------------

```
tokio-dtls-example server 127.0.0.1:9000
tokio-dtls-example client 127.0.0.1:9000
```

If the client has connected to the server, you can type lines of text and
see them echoed back:

```
You say goodbye
Echo: You say goodbye
```
