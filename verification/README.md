# coretester

A per-logical-CPU benchmark whose decision logic is a Verus-verified library.

- `src/` — the verified library:
  - `text` — characters, trimming, decimal/hex numerals with Rust's `FromStr` meaning;
  - `cpu_list` — the `--cores` list (`0,2-5,8`) as a sorted set of CPUs;
  - `args` — the command line;
  - `affinity`, `core_relations` — CPU counts, processor groups, and the topology
    read from Linux sysfs ids or from Windows processor-core records;
  - `features` — feature inventories, the acceleration kernels that may run, core type;
  - `sensors` — sensor file numbers, temperature and energy-counter selection,
    counted energy with wrap-around, the availability note;
  - `chase` — the shuffled pointer ring of the latency kernel;
  - `timing` — when a timed kernel run stops and how its work is counted;
  - `identity` — processor name, CPU selection, run records;
  - `report` — the HTML page with the run's JSON embedded.
- `app/` — the program: FFI thread pinning, sysfs and CPUID reads, the timed
  floating-point kernels, score arithmetic, JSON serialisation and file output.
- `tests/` — tests of the library.
