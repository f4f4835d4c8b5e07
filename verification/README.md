# vivarium

Climate control for a pair of vivariums on an ATmega328P board: two SHT3x
probes behind a TCA9548A mux drive a fan per side and a shared misting pump,
and two HD44780 20x4 LCDs show the readings.

- `src/` is the verified library (Verus): fixed-point conversions and
  formatting (`units`), SHT3x frame decoding and the sensor bank (`sensor`),
  the relay state machine with its anti-short-cycle guards (`relays`), the
  Timer0 millisecond tick (`millis`), and the LCD bus plans (`display`).
  Nothing in the library allocates: an LCD procedure is a handful of small
  step descriptors, each step's plan is produced one item at a time by its
  index, and each item expands into at most eight bus operations.
- `app/` is the firmware around it: board bring-up, the control loop, and the
  I2C transfers, GPIO writes and delays that the library's plans describe.
  It needs the `arduino-hal` board crate, which is taken from the avr-hal
  repository rather than a registry.
- `tests/` exercises the library on concrete values, including a model of the
  LCD that replays the display plans.
