# akarin

The logic of a small capability-based microkernel, written and proved in Verus.

`src/` is the library. Every function in it states what it returns or changes, and
the laws that span functions are public proof functions whose names begin with
`law_`.

| Module | What it holds |
| --- | --- |
| `object`, `collections`, `error` | handles, capabilities, tables keyed by numbers |
| `memory` | boot heap, frame zones, small objects, address ranges |
| `sched` | fair queues, tasks, processors, load balancing, timers, stacks |
| `sched::process` | processes, their tasks, memory, loading and control |
| `ipc` | messages, mailboxes, unicast, broadcast, bus and reply ports |
| `interrupt`, `device` | interrupt objects, PCI, ACPI, the display console |
| `runtime`, `init` | futexes, calls between processors, order of initialization |

Two outside crates are called from the library, each behind items whose contracts
are believed: `hashbrown` holds the index of the number-keyed tables
(`collections`), and `unifont` gives the bitmaps of characters (`device::glyph`).

What touches hardware is not part of the library. Functions there take the outcome
of a hardware operation as a value, or say what to do next and are told how it
went.

`app/` runs the library inside an ordinary process: it keeps the clock, the log,
the block allocators and the firmware tables, probes the devices and starts the
first program. `tests/` checks the library on concrete values.
