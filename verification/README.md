# elevator

A distributed elevator controller. Every node keeps a world view of all
elevators on the network, agrees with the others on which hall calls are
active, backs up its cab calls on the others, lets an external hall request
assigner share the hall calls out, and drives its own elevator with a SCAN
strategy.

- `src/` is the verified library (Verus): the world view and its merge and
  cleanup rules, the elevator manager as a step function from state and event
  to next state and output, the call manager's light decisions, the
  conversions to and from the assigner's formats, the peer tracking of the
  network layer, input edge detection, and the smaller state machines. The
  JSON answer of the assigner is parsed with `serde_json` and elevator
  identifiers are decoded with `bincode`, each behind a trusted wrapper.
- `app/` is the runtime around it: tokio tasks, UDP sockets, the elevator
  driver, the assigner process, and serialisable copies of the library's types.
- `tests/` exercises the library on concrete values.
