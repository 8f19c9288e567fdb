# open-edifier

Local control of EDIFIER speakers (the S260), with its protocol logic
verified in Verus.

- `src/` is the verified library:
  - `aaec`: the `AA EC` / `BB EC` binary frames, their checksum and the
    incremental decoder (with proofs that splitting the input never changes the
    decoded frames, that every decoded frame is a checksum-valid run of the
    bytes fed, and that an encoded response decodes to itself);
  - `s260`: the S260 driver — JSON response framing and the response fields
    read from each frame (`protocol`), status validation (`model`), push-event
    decoding and the event loop's reconnect state machine (`events`), and the
    control client's decisions: commands and their compact JSON requests,
    response checks, request ids, request deadlines and write-then-verify
    (`client`);
  - `device`: model-independent identifiers, state, events, errors, traits;
  - `discovery`, `facade`, `cli`, `bridge`: classification of mDNS records,
    driver selection, device selection and text rendering, bridge error kinds;
  - `text`: character-level helpers with their specifications.
- `app/` is the program around it: sockets, clocks, mDNS, reading status
  documents and printing JSON, the
  `edifier` command line and the C ABI for the native applications.
- `tests/` exercises the library on concrete values.
