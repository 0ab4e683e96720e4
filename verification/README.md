# ch32_util

Utilities and firmware logic for the WCH CH32V003 RISC-V microcontroller,
written in Verus so that the logic carries machine-checked contracts.

- `src/` is the verified library:
  - `awu`, `iwdg`, `wait`, `stack_info`, `sdi_write`, `ufmt`: the arithmetic
    and bit manipulation behind the auto-wakeup timer, the independent
    watchdog, bounded busy-waiting, stack high-water marks, the SDI debug
    packet format and CR LF output;
  - `csps`: the power-supply controller firmware's serial command protocol
    (parsing, replies, timers), its 50 ms status loop, the power button state
    machine and the receive-side line assembly;
  - `serial`, `switch`: the echo and power-switch firmwares' logic;
  - `digits`, `tokens`, `text`, `tx`, `line_buf`: shared helpers and the
    contracts given to the `heapless` and `embassy-sync` calls the library
    makes.
- `app/` is the hardware side: register access, the embassy tasks and the
  firmware entry points. It reads the hardware, calls the library and carries
  out what the library decides.
- `tests/` exercises the library on concrete values.
