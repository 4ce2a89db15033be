# jam

A small x86-64 recompiler for emulators, verified with Verus.

- `src/assembler/`: an assembler that appends x86-64 instructions to a byte
  buffer, hands out labels and patches their displacements. Every emitter's
  contract gives the exact bytes it appends.
- `src/allocator/`: a register allocator that binds emulator registers and
  local variables to host registers, kept in a `bimap::BiHashMap`, and keeps
  the layout of the JIT stack frame. Its contracts say which moves each
  change of bindings calls for. `queues.rs` holds the two queues that live
  in registers only: saved flags and delayed writes to emulator registers.
- `src/recompiler/`: the front end. Each operation binds the values it needs,
  emits the moves and the instruction, and keeps the frame accounting; its
  contract gives the new bindings, the code appended and the frame size.
  `Recompiler::new` emits the entry code and `Recompiler::compile` the exit,
  with every label resolved.
- `app/`: maps the finished code into executable memory (`memmap`) and runs
  it; `compile` checks `Recompiler::can_compile` before finishing.
