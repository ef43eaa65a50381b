# zero_to_async

Timekeeping and scheduling logic for a micro:bit v2 (nRF52833) running off
its 32.768 kHz real-time counter, verified with Verus.

- `src/time.rs` — tick instants and durations; arithmetic and wrap-around
  ordering come from `fugit`.
- `src/ticker.rs` — the 56-bit clock made of overflow count and 24-bit
  counter; reading it consistently; compare-register values.
- `src/timer.rs` — one-shot timers and their steps as futures.
- `src/deadlines.rs` — the wake-up queue (a `heapless` min-heap) and the
  decision of how to program the compare register.
- `src/timers.rs` — the list of armed timers (a `heapless` vector) served
  by the compare interrupt.
- `src/blinky.rs`, `src/hello.rs` — the two state machines of the demo.
- `src/led.rs`, `src/count.rs` — the LED task's sequence and the counting future.

`app/` holds the firmware around it: peripherals, interrupts, pins and the UART.
