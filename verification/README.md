# myos

The logic of a small teaching kernel, verified with Verus.

- `src/file_system/`: an in-memory block disk (`block`), inodes and directory
  entries with their on-disk byte layouts (`inode`, `dir`), the file system
  that keeps one root directory on that disk (`fs`), and the properties proved
  of it (`laws`): an inode or a file reads back as written, and a created name
  is found again.
- `src/shell.rs`: the line editor that turns key presses into a command line,
  and the command parser.
- `src/keyboard.rs`: decoding of the keyboard's scancode bytes with
  `pc_keyboard`, each decoded key fed to the line editor.
- `src/task/scheduler.rs`: the queue of spawn requests (a bounded
  `crossbeam_queue::ArrayQueue`), the completion counter of a task batch, the
  order in which a batch spawns its five tasks, and the yield-once future.
- `app/main.rs`: a hosted program that reads scancode bytes from standard input,
  prints what the kernel would show on screen, and runs a task batch
  whenever a spawn request is pending (nothing in the shell makes one).
