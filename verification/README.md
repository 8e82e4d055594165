# dandelion_unikraft

The core of an execution engine that runs user code in ring 3, with page tables
of its own, in the address space of a Unikraft kernel.

- `src/` is the library, verified with Verus: page tables and descriptor tables
  (`x86_64`), contexts and their layout (`memory_domain`), the engine loop and
  its driver (`engine`), start-up of further processors (`ap_startup`), and time
  points of executions (`records`). It touches no hardware: where a register, a
  page table entry or the clock has to be read, a function says so and takes the
  value as an argument.
- `app/` does what the library asks for: instructions, allocation, threads,
  atomics and the clock.
- `tests/` runs the library on concrete values.

Each module holds, besides the functions, the laws that relate them, such as
`tables_map_the_context` (what is built is what an address walk translates
through) or `read_after_write`.
