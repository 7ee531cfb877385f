# artifex

The verified core of a desktop studio that turns prompts and images into game
assets (sprites, sprite sheets, atlases, tiles, pixel art, code). Every function
under `src/` carries a Verus contract. All are proved against their contracts
except the small trusted wrappers (marked `#[verifier::external_body]`) that
call outside code: image decoding and nearest-neighbour resizing (`image`),
skyline packing and sheet export (`texture_packer`), base64 encoding
(`base64`), the set of enabled providers (`dashmap`), and std's `{:?}`
formatting and `to_lowercase`. Their contracts are
taken on trust; each one's doc comment says what it claims.

- `src/` — the library. Image logic (slicing, connected components, pixel-art
  quantisation and Floyd–Steinberg dithering, seamless mirroring), sheet and
  atlas layout, the job lifecycle (status codec, retries, progress), the code
  agent's state machine, the providers' error mapping and polling rules, and
  the provider/credential state of the model-configuration service.
- `tests/` — the test suite, run against the compiled library.
- `app/` — a command-line runner around the library: file I/O, PNG decoding and
  encoding, texture packing, JSON payloads, and the few image measures that are
  computed in floating point.
