# kernel

The process, memory, time and terminal logic of a small x86 kernel, verified
with Verus.

- `src/` is the verified library: address arithmetic, process memory layouts
  and mmap regions, kernel stack slots, processes and the task table with its
  scheduler, IPC queues, copy-on-write share counts, the copy-on-write fork
  of a page directory, page-fault planning, calendar time, pipes and ring
  buffers, terminal and vterm escape-sequence handling, keyboard meta-key
  tracking and key-to-byte translation, the syscall register encoding and
  error codes, and the kernel side of the syscalls. Where the kernel touches
  the machine (page tables, port IO, video memory, context switches), the
  library decides what to do and returns it as a value: the page to map, the
  process to switch to, the entries of a new page directory, the screen
  operations to perform. The keyboard layout is an argument: the table of
  characters per key code comes from the keyboard driver.
- `app/` holds what needs the machine or global state: spin-locked tables,
  inline assembly for syscalls, context switches and port IO, the frame and
  page-table accesses of a fork, and the code applying screen operations to a
  text buffer.
- `tests/` runs the library on concrete values.
