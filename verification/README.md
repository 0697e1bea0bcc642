# bus_analyzer

Tools for a microprocessor board, built on RP2040 boards: a capture board that
samples every bus cycle and streams it over USB, a host decoder that prints
one line per cycle, an EEPROM emulator with its self-test, and a WS2812 clock
display.

`src/` is the verified library (Verus):

- `bytes`: words and 64-bit values as big/little-endian bytes.
- `record`: the packed `AnalyzerA` / `AnalyzerB` records and their codes.
- `report`: the host's report line (`get_address_area`, `format_data`).
- `capture`: the capture board's clock divider, cycle counter and button.
- `led`: RGBW dimming (`Brightness`) and the display's demo colours.
- `eeprom`: the emulator's reply rule and the self-test's seed and tally.

`app/` holds the programs: `main.rs` is the host decoder (serial I/O), and
one module per board holds its firmware (PIO programs, USB, timers), which
calls the library for every decision.
