# compio_driver

The core of a proactor driver, verified with Verus.

Two drivers share one shape. Each is a state machine: a method takes what
happened, updates the driver, and returns what has to be done next. System calls
are made outside, and their outcome is handed to the next method.

- `poll` keeps the operations that wait for readiness, by file descriptor, and
  decides which registrations a level-triggered poller must hold.
- `iour` keeps the operations that a completion ring holds, the cancellations
  still to be submitted, and a bounded lane of completions for one owner.
- `completion` holds finished operations and the channel that carries them.
- `unix`, `os`, `config`, `error` and `seqs` hold what both drivers use.

In both drivers `state.rs` says what a driver knows and how each step changes it,
`driver.rs` implements the steps, and `laws.rs` states what holds across them: no
wakeup and no completion is lost, a cancelled or failed operation waits nowhere,
an operation stays in flight until its last completion, the lane keeps its bound.

`app/` runs the drivers on `polling` and `io-uring`.
