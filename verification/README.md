# yblink

The pin engine of the YBLINK CMSIS-DAP probe (HPM5301, USB HS): SWD and JTAG bit-banged
on the FGPIO block, with every decision verified in Verus.

The library does not touch hardware. Each operation of `probe::ProbePins` appends the
register accesses it decides on (`program::PinOp`) to a pending program; the firmware
performs them, collects the input samples they take, and hands the samples to the
library's decoders and transfer steps.

- `src/pins.rs` — pin assignment and port masks.
- `src/protocol.rs` — parity, SWD request encoding, acknowledge decoding, clock-to-delay
  mapping, little-endian word packing, sample decoding.
- `src/spin.rs` — spin-loop hints as tokens, so a delay's contract counts real hints.
- `src/program.rs` — register accesses and their effect on the FGPIO output registers.
- `src/probe.rs` — the probe state (shadow output registers, timing, activity LED) and
  the operations that queue programs.
- `src/transfer.rs` — fast SWD transfers and block transfers as steps.
- `src/laws.rs` — what the programs do on the wire: shadow registers in step with the
  hardware, bits LSB first on rising SWCLK edges, exact sample counts, block progress
  step by step and over whole runs.
- `app/lib.rs` — the firmware side: FGPIO register access, pad setup through the HAL,
  and the loops that run the transfer steps.
