# voop

A screenless device that records bike rides by itself, and a bike computer on the same board.
This crate is the part of both that decides and computes, written in Rust and proved with Verus.

- `src/` is the library. Every task of the firmware stands here as a small machine: what it
  remembers, what an event makes of that, and what is to be done about it.
  - `protocol` is the wire format that the recorder and the phone share.
  - `mcu` is the recorder: `power` (what deserves power), `gps`, `clock`, `imu`, `battery`, `store`
    (the ring buffer), `ble` (the cadence sensor and the phone), `screen` and `logger`.
  - `bike_computer` is the bike computer.
  - `sentence`, `advert`, `bytes`, `calendar`, `ieee`, `fixed`, `text` and `ticks` are what those
    build on: NMEA lines, advertising data, little-endian numbers, dates, doubles by their bits,
    numbers with decimals, short texts, and the monotonic clock.
- `tests/` runs the library.
- `app/` is the firmware around it: it moves bytes between the peripherals and the library. A build
  with `VOOP_BIKE_COMPUTER` set in the environment is the bike computer's, any other the recorder's.

Functions named `law_...` state what holds of the library as a whole. Functions marked
`external_body` call an outside crate; their contracts are taken from its source.
