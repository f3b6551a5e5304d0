# OS101

The decision logic of a small hobby operating system, verified with Verus: its
window system, its shell, its package format, its calendar and clock, its USB
stack, its system calls and its script and compiler hosts.

- `src/` is the library. Every function states what it returns or changes, and
  these statements are proved, up to the twelve items below. What touches
  hardware, files or the network is left out: a function says what is to be done,
  and another one takes what came of it.
- `tests/` runs the library on concrete values.
- `app/` is the ordinary Rust around it: ports, shared memory, the C interfaces
  of the script engine and the compiler, a console for the shell, and a session
  that feeds the desktop its events and draws what it asks for.

What is believed without proof, each with its reason beside it:

- of the standard library, what `String::push`, `char::is_alphanumeric` and
  `str::from_utf8` do, and the name `alphanumeric` for what the second of them
  answers (`src/text.rs`);
- of `crossbeam_queue`, the type `SegQueue`, the name `queued` for what one
  holds, and what its `new`, `push`, `pop` and `len` do
  (`src/window/events.rs`);
- of `noto_sans_mono_bitmap`, the width and the height of a character cell
  (`src/window/metrics.rs`).

Where to begin reading: `src/package.rs` for the package format,
`src/shell/` for the shell, `src/window/` for the desktop (`manager.rs` and
`state.rs` hold its state), `src/usb/` for the controller, its devices and
drives, `src/syscall.rs` and `src/user.rs` for the two sides of a system call.
