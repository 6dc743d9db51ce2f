# audiod

A Spotify Connect receiver that runs its audio through a small DSP chain and
hands it to Snapcast, controlled over an HTTP API.

- `src/` is the verified library (Verus):
  - `samples`: the 16-bit little-endian stereo frame format of the FIFOs and
    the reader's per-read decision;
  - `settings`: command-line options with environment and default fallback;
  - `json`: the JSON value model the Snapcast messages are written in;
  - `snapcast`: the JSON-RPC calls to Snapcast and what is read from its
    `Server.GetStatus` reply;
  - `api`: HTTP bodies and the status code of each handler outcome;
  - `connect`: Spotify credential choice, the OAuth redirect address and the
    pipeline's routing rule.
- `app/` is the program around it: the HTTP server, the HTTP client for
  Snapcast, FIFO I/O, librespot, and the floating-point equaliser and
  compressor.
- `tests/` runs the library on concrete values.
