# kernel

The logic of a small x86_64 kernel, verified with Verus: the device tree,
the physical frame allocator, FAT and partition tables, ELF loading, the
AHCI and NVMe command logic, the interrupt controllers, the consoles, the
message queues and the keyboard's scancode queue.

- `src/` is the library. Each function states what it computes in its
  `requires`/`ensures`, over spec functions on bytes, sequences and maps;
  the proof functions named `lemma_*` and public state the laws that relate
  several operations (what an insertion into the tree is found again as,
  what a freed frame becomes, what a read gives back of a write, ...).
  Where the hardware is involved, the library computes what to do (port
  writes, register values, sectors to read, commands to issue) and takes the
  hardware's answers as arguments.
- `app/` is the hardware side: port and memory access, the interrupt
  handlers and the loops that hand the library's decisions to the devices.
- `tests/` runs the library on concrete values.

Four outside crates are called from the library, each behind a small
wrapper whose contract states what its source shows: `font8x8` for glyphs,
`ringbuffer` for the message queues, `crossbeam-queue` for the scancode
queue, and `x86_64` for splitting virtual addresses.
