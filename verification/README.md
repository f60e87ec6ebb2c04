# rustmas

Verified core of a Christmas-lights controller: the logic that decides what
is sent to the lights, when frames are due, how failing connections back off,
and how per-light detections become positions.

- `src/` is the library, written in Verus and proved:
  - `light_client`: frame encodings (gamma, byte orders, length prefix),
    serial-port detection, the back-off state machine, combining several
    clients' outcomes, endpoint configuration;
  - `animator`: the integer animations, the controller's frame timing,
    plugin naming and JSON-RPC bookkeeping;
  - `configurator` and `cv`: camera and endpoint selection, the sequence
    of steps that captures one side of the tree, gaps between confident
    detections, normalisation bounds, capture retries and paths;
  - `events`: audio sample window, spectrum band bins, device lookup and
    MIDI note handling;
  - `color`, `text`: frames, colours and the string helpers the rest uses.
- `tests/` runs the library on concrete values.
- `app/` is the unverified shell: network and serial I/O, async loops,
  the capture driver (camera and image processing behind traits),
  plugin processes, floating-point animations and geometry, serde types.
