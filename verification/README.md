# metal_terminal

The decision logic of a BLE-connected payment terminal (ESP32, 4x4 keypad,
16x2 I2C LCD), written in Verus and proved against its contracts.

- `src/` — the verified library:
  - `keypad` — decoding of keypad scans into key labels;
  - `encrypt` — AES-GCM payload encryption, AES block encryption, and the
    decoding of an assembled chunk pipe into customer id and message;
  - `jinx`, `state` — per-connection assembly of chunked messages;
  - `gix` — the driver/customer slots and the one-shot hand-out of the
    encrypted price and device id;
  - `lcd` — key handling, debouncing, and the LCD screens as operation lists;
  - `cloud` — the service's request and response types;
  - `buffers` — the `heapless` buffers and the contracts the library relies on.
- `app/` — the firmware around it: peripherals, threads, HTTP, serde. The
  BLE callbacks are in `app/ble.rs`, but no BLE stack is among the
  dependencies, so the firmware starts no BLE server: it receives no
  chunked messages and hands out no price or device id as it stands.
- `tests/` — tests of the library on concrete values.
