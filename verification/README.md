# tokio_way_sock

The logic of a Tokio-based Wayland Unix socket listener, written and proved in
Verus.

The library (`src/`) decides and computes; it performs no input or output. It
holds the Wayland wire format, the claiming of a socket name, and three state
machines: a listening socket, the receiving side of a client and the sending
side of a client. Each machine says what to do next and takes in what came of
it. The modules whose names end in `_laws` state what holds of whole runs.

The program around it (`app/`) opens files and sockets, spawns tasks and
forwards between the machines and Tokio. Its entry point is
`run_wayland_socket`.

Tests on concrete values are under `tests/`.
