# axplat-riscv64-sg2002

Verified interrupt and console logic of the SG2002 platform layer for
ArceOS / Starry OS.

- `src/cause.rs`: classification of interrupt numbers (`scause` values and PLIC sources).
- `src/plic.rs`: PLIC register layout, cold-initialisation stores, claim decoding, contexts.
- `src/enable_shadow.rs`: the memory copy of the PLIC enable words (the enable block of this
  SoC faults when read), with the stores that keep the hardware in line.
- `src/irq.rs`: what enabling an interrupt comes down to, and handling of a claimed source.
- `src/ipi.rs`: SBI hart masks for inter-processor interrupts.
- `src/console.rs`: the UART byte protocol (LF to CR LF on output, buffered reads).
- `app/`: the register accesses, CSR writes, SBI calls, locks and handler slots around them.
