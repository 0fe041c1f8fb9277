# xm2w

Verified configuration protocol for the Endgame Gear XM2w 4K mouse.

- `src/xm2w/layout.rs` — protocol constants and the layout of the 1041-byte config blob.
- `src/xm2w/settings.rs` — button bindings, DPI levels and settings; their encoding in
  the blob (`Config::to_settings`, `Config::apply_settings`) and the proof that reading
  back applied settings gives the same settings.
- `src/xm2w/exchange.rs` — the feature-report exchanges that read and write the device,
  the decoding of replies, and the proofs of what the apply path leaves on the device.
- `src/xm2w/emu.rs` — an in-memory model of the firmware (`EmuTransport`) with its
  write/read-back laws.
- `src/xm2w/text.rs` — verified rendering of numbers, key names and binding descriptions.
- `src/xm2w/driftguard.rs` — the dead-zone filter, button-edge events and start decision of
  Drift Guard.
- `src/web.rs` — routing, static-file mapping, content types and status codes of the local
  web server.
- `app/` — the program: HID transports (hidapi on Linux, IOKit on macOS), the delays
  between exchanges, the global emulator, macOS permissions and the HTTP server.

Run `xm2w --emu` to serve the UI against the emulator, `xm2w --web` for the fixed port 8723.

The known write commands (sensor block, button parts) do not reach the polling divider, the
flags byte or motion sync; `lemma_divider_set_only_by_reset` proves that against the
emulator, so an applied polling rate reads back only when the device already runs at it.
