# wipedicks

A file and device shredder that overwrites its targets with ASCII penises
(`8===D~ `), with a Verus-verified core.

- `src/` is the verified library: the penis generator (`dicks`), the byte-level
  text scanning of kernel tables (`text`, `mountinfo`), Unix path components
  (`pathname`), the path-safety guard (`safety`), the drive policy and device
  resolution (`drive`), the interrupt cleanup registry (`cleanup`), the
  command-line checks (`cli`), the wipe-loop bookkeeping (`wipe`), the progress
  bar's shape and colors (`progress`) and the run decisions (`run`).
- `app/` is the program: argument parsing, file and device I/O, sysfs and
  `/proc` reads, subprocesses, threads, the Ctrl-C handler and the terminal
  progress bars.
