# arceboot

The logic of a RISC-V boot firmware, verified with Verus: the supervisor
binary interface (SBI) that the firmware offers the system it boots, the
state of each hart, and the boot media it reads.

## Layout

- `src/` — the verified library.
  - `binary`, `hart_mask`, `memory_range`, `version`, `ids`: SBI return
    values, hart and counter masks, physical memory ranges, version numbers
    and the extension and function identifiers.
  - `extensions`: the traits a platform implements for each SBI extension.
  - `instance`: an SBI instance built from the platform's extensions; it
    decodes each environment call, answers what it can answer itself and
    hands the rest to the extension that serves it.
  - `ecall` (with `ecall/`): the dispatcher that also serves the legacy
    calls, and the per-extension handlers.
  - `base`, `hsm`, `rfence`, `board`, `console`, `legacy_stdio`,
    `dynamic`, `testing`: extension probing, the hart state machine, remote
    fence bookkeeping, reset decisions, log levels, the legacy console,
    the hand-over to the next boot stage, and the SBI self-test verdicts.
  - `dtb` and `dtb_laws`: a flattened device tree parser that finds nodes,
    reads, classifies and rewrites properties and lists the tree, with the
    proofs that a rewritten property reads back as written.
  - `cpio`: reading files out of a `newc` cpio ramdisk.
  - `efi`: the load layout of an EFI image.
  - `heap`: which free memory regions start and extend the heap.
- `tests/`: the library's tests.
- `app/`: the command-line program around the library (reading files,
  printing, logging, reading the hart's id registers, forwarding SBI calls
  to the machine below).
