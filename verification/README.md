# mqtt_toolkit

An MQTT 3.1.1 toolkit: an interactive command-line client and a broker.
The library under `src/` is written in Verus. Its functions are proved
against their contracts, except the small trusted items that call the
outside crates (`mqttrs`, `lexical-sort`) and parts of std: their contracts
state what those crates' sources show, and the proofs rest on them.

## Library (`src/`)

- `text`, `collections`: character-level string helpers and small
  insertion-ordered sets and maps keyed by text.
- `cli`: the shell's command specifications, flags and their identifiers,
  the lexer that splits input into arguments, and the parser that turns a line
  into a command with flags and operands; help and usage texts.
- `command`: typed access to flag arguments and operands.
- `commands`: the client commands (`connect`, `publish`, `subscribe`,
  `unsubscribe`, `ping`, `connack`, `disconnect`, `debug`, `help`, `exit`),
  the packets they build, the decisions of their acknowledgement waits,
  and `run::plan`, which decides what running a parsed command comes to.
- `client`: the keep-alive timer and the decisions of the connection thread.
- `mqtt`: the packet types, the lengths of the buffers they are encoded
  into, the check that a received frame can be handed to the `mqttrs`
  decoder, and the decoding and encoding of packets through it.
- `broker`: the shared subscription state, the per-client protocol state
  machine, sessions and the QoS exchange trackers.
- `ports`: a pool of test ports.

Properties that relate several operations (what a subscription delivers,
that an unsubscription undoes a subscription, that a QoS exchange completes,
that a later flag replaces an earlier one, ...) are proof functions beside
the operations they speak of.

## Program (`app/`)

`app/` runs the library: the `broker` argument starts the broker on a tokio
runtime, anything else starts the interactive client. It holds the I/O,
threads and tasks, and logging; before each call into the library it tests
the call's precondition.
