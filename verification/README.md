# iris

The MIPS R4000 processor of an SGI Indy emulator, its debugger and some of the devices
around it, verified with [Verus](https://github.com/verus-lang/verus).

- `src/` is the library. Everything in it is verified; what it takes from the `toml` crate
  and from `std` without a specification is listed with its contract in `toml_tree.rs`,
  `text.rs`, `cmd_memory.rs` and `cmd_proc.rs`.
- `tests/` runs the library on concrete values.
- `app/` holds what needs the host: threads and locks, files, floating-point arithmetic,
  shared memory with a game console, and the connection to a remote debugger.

## How the library is laid out

`machine.rs` gives the executor a mathematical state, `Machine`, and says on it what
translations and memory accesses do. Each operation is a function from one such state to
the next, and the executable function of the same purpose ensures exactly that function.

| Part | Modules |
| --- | --- |
| Instructions | `isa`, `instr`, `alu`, `integer`, `loadstore`, `cop0`, `fpu`, `fpu_round`, `exec` |
| State and memory | `cpu_core`, `status`, `machine`, `memory`, `setup`, `bus`, `soft_tlb`, `ram`, `bytes` |
| Debugger | `breakpoints`, `exp`, `expr_parse`, `symbols`, `symbols_load`, `unwind`, `debug_loop`, `inline_steps`, `gdb` |
| Histories | `undo`, `snapshot`, `tools`, `traceback`, `trace`, `digest`, `lockstep`, `idle`, `idle_report`, `executor_tools` |
| Command line | `command`, `commands`, `cmd_*`, `monitor`, `regs_text`, `text`, `parse` |
| Saved states | `toml_tree`, `saved_state` |
| Around the processor | `jit`, `thread_affinity`, `rex3_simd`, `ultra64`, `ultra64_cmd` |
| Laws | `cpu_laws`, `fpu_laws`, `fusion_laws`, `digest_laws`, `unaligned_laws`, `undo_laws`, `saved_state_laws`, `command_laws`, `frame` |

Proof functions whose names begin with `law_` state what holds of several operations
together: that a fused pair is the two instructions it joins, that undoing instructions
brings memory back, that a saved state loads back, that the debugger's own accesses leave
no trace.

## Floating point

The library computes moves, comparisons, sign changes and conversions to integers on bit
patterns. An instruction that needs the host's arithmetic ends in `Step::Float` with a
request; the host answers it, and the library completes the instruction with the answer.
