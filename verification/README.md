# hall_effect_keyboard

Firmware logic of a hall-effect MIDI keyboard on an Electrosmith Daisy Seed, written in
Verus and verified.

`src/` is the library:

- `switch` — the 4-sample moving-average filter and the debounced two-threshold switch
  state machine with its velocity curve;
- `scan` — the 1 kHz scan: all switches, pitch bend and vibrato from the arrow keys,
  potentiometers, the status LEDs, and handing events to the MIDI task;
- `events` — routing switch events to MIDI messages and to the main screen;
- `midi` — MIDI channel messages as bytes for the UART;
- `calibration` — boot baselines of every multiplexer channel;
- `settings`, `storage` — the settings menu and the two-slot CRC-checked flash record;
- `display` — note names and the texts of the screens;
- `hardware` — multiplexer and decoder address levels, the I²C bus-recovery sequence;
- `queue` — the `heapless` collections that carry events between tasks.

`app/` wires the library to the hardware under RTIC (GPIO, ADC, UART, flash, SSD1306).
