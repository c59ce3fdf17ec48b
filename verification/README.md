# hue_driver

A driver for Philips Hue lights, sensors and controls behind a Hue bridge, over the bridge's
CLIP v2 API. The decisions of the driver are in `src/` and are verified with
[Verus](https://github.com/verus-lang/verus): every function states what it returns and what it
changes, and the files whose names end in `_laws` state what holds of the driver as a whole.

- `src/` is the library. It performs no input or output. It is handed a device and an event, and
  returns what the device then remembers and what the host is to do.
- `app/` runs the library in its host: color arithmetic, which is floating point, and the glue to
  the host's SDK.
- `tests/` runs the library on concrete values.

What the proofs rest on is in `src/codec.rs`: that what `serde_json` reads out of a JSON text
depends on the text alone, and the text that it writes of a document on the document alone.
