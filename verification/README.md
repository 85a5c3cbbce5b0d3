# async_std

The core of an asynchronous runtime: task queues, work stealing between processors, the decisions
of the machine threads that run tasks, the supervision that replaces a stuck machine, and the
reactor that knows which tasks an I/O event wakes up. These are verified with Verus; the threads
that carry the decisions out are not.

## Layout

- `src/` is the verified library. It performs no I/O and starts no thread: every scheduler is a
  plain value, and a machine thread is a state machine whose steps return the actions to perform.
  - `queue`, `processor`: the global queue, the local queues and slots of the processors, and the
    order in which a task is looked for.
  - `fleet`, `backoff`, `cpus`: which machine holds which processor, how stuck machines are
    relieved, and how often to look.
  - `rt::reactor`: registered I/O handles and the tasks that wait for them.
  - `rt::runtime`, `runtime::scheduler`, `task::executor::pool`: three schedulers that are built
    from these parts and differ in how they poll, supervise and go idle.
  - `crew`: how machine threads and machines agree, and what a machine keeps while its thread blocks.
  - `history`: what it means that a scheduler loses no task.
  - `task::builder`, `tracing`: what is known of a spawned task, and the hooks for tracing tools.
- `app/` is ordinary Rust around the library: threads, polling, futures, file operations.
- `tests/` runs the library on concrete values.

Tasks, wakers and machines are numbers in the library. The threads in `app/` keep the values that
the numbers stand for, and hold a lock on the state of a scheduler for a step, never for an action.

The queues are those of `crossbeam_deque`, the table of I/O handles is that of `slab`, and the
readiness bits are those of `mio`. What the library relies on of them is stated where they are
called, in `queue`, `rt::reactor` and `cpus`.
