# CAS

A sandbox for coding agents: commands run in a file system that decides, path by
path, what reaches the host.

- A path that passes through is read and written on the host.
- A path that is copied on write is read from the host until it is first written;
  from then on it lives in the sandbox.
- A path that is blacklisted is hidden: only what the sandbox itself wrote is seen.

`src/` is the verified library: paths, the policy, every decision of the file
system and the order in which it is carried out, the daemon's state, the run
lifecycle and the set-up of a process, each with a contract that Verus proves. The
files whose names end in `_laws` state what holds across functions.

`app/` is the program around it: the kernel's file system interface, sockets,
shared memory, terminals, namespaces and the command line. `tests/` runs the
library.

The contracts of outside functions that the library calls stand beside their
wrappers: `tables.rs` (concurrent maps), `config/globs.rs` (patterns), `errno.rs`
(flags and error numbers), `syncing/disk.rs` (the calendar), `shm/name.rs` (random
names) and `text.rs` (UTF-8).
