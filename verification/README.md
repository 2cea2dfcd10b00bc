# Oxide OS kernel logic

The decision logic of the Oxide OS x86_64 kernel, verified with Verus.

- `src/vga.rs`: the 80x25 text console (cursor, wrapping, scrolling, clearing).
- `src/serial.rs`: COM1 initialisation and the bytes sent for a text (CRLF).
- `src/cpu/`: PIC and PIT programming, the round-robin scheduler, and what the
  timer interrupt does.
- `src/memory.rs`: the boot memory map, the boot frame allocator, and the
  address of the active level-4 page table.
- `app/`: the kernel itself: port I/O, VGA memory, control registers, context
  switches and the boot entry point, around the library.

Port writes are returned as `PortWrite` lists and screen contents as a
`ScreenBuffer`; `app/` carries them out on the hardware.
