# zectrix_rs

Verified core of the ZecTrix Note4 (ESP32-S3) e-paper firmware.

- `src/` — the library, verified with Verus:
  - `frame.rs`: the 1bpp framebuffer model (pixel layout, `set_pixel`, `draw_rect`, `clear_white`);
  - `epd.rs`: the diagnostic test pattern, the 1bpp to 2-bit panel format, the bit-banged
    serial order, busy-wait decisions, the command sequences of a full refresh and how a
    sequence is run (stopping at the first timed-out wait);
  - `slint_ui.rs`: RGB565 thresholding and copying rendered lines into the frame;
  - `wifi.rs`: the Wi-Fi scan summary; `ui.rs`, `text.rs`, `battery.rs`: the screen state,
    when it is redrawn, and the texts it shows; `board/`: board constants.
- `app/` — the firmware around it: pins, timers, the Wi-Fi radio, the Slint platform and `main`.
