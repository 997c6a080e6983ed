# container_init

The init process of a Linux container: what it asks of the kernel and of the rest of the
runtime, in which order, and what it makes of each answer, from the new session to the
execution of the payload. The decisions are verified with Verus.

- `src/process.rs` holds the init process as a state machine. `container_init_process` starts
  it, `next_call` says what to do next, and `resume` takes the answer.
- `src/plan.rs` gives the order of the stages, `src/stage.rs` what each asks for and what its
  answer leads to, and `src/procedures/` the procedures that take several calls.
- `src/context.rs`, `src/call.rs` and `src/error.rs` are the types that go in and out.
- `src/abi.rs`, `src/text.rs` and `src/io_priority.rs` hold the calls into other crates and the
  standard library, with the contracts that are taken on trust.
- `src/run.rs`, `src/laws.rs`, `src/order.rs`, `src/causes.rs`, `src/ending.rs` and
  `src/guarantees.rs` state and prove what holds of every run, whatever the host answers.
- `app/` makes the calls: it goes to the kernel itself where that is all it takes, and to an
  implementation of its trait `Host` for the rest of the runtime.
