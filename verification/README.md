# crimp

Tools for record and replay of WebAssembly components: a component is
decomposed into its core modules, whose imports are either linked to sister
instances or replayed from a trace, either by the engine (from a custom
section) or by a glue module and a replay driver. The crate also holds the
r3 baseline, which instruments modules with a shadow memory and records the
divergences.

## Layout

- `src/` is the library, verified with Verus:
  - `ids`, `names`: identifiers and the naming of instances and stubs;
  - `linking`, `component_linking`, `decompose`: the linking metadata of a
    component and its computation from a view of the component;
  - `adapt`: renaming the imports of an instance and its replay data;
  - `glue`, `dispatch`, `wasm`: the glue module, its replay stubs and its
    dispatch interface, over a small model of a core module;
  - `start_analysis`: which start functions can be replayed;
  - `binary`: the replay driver, as parsed from its build, named and paired
    with the finished glue module;
  - `driver`: the decisions of the replay driver, event by event;
  - `r3`: the shadow-memory instrumentation and the recorder's helpers;
  - `r3_run`: a small model of running the injected code, with the proofs
    that every instrumented store keeps the shadow memory equal to memory 0
    and that every instrumented integer load reports the bytes it read
    where the shadow differs;
  - `hosts`: the host functions of the test components.
- `tests/` runs the library on concrete values.
- `app/` is the command-line program around it: reading and writing modules
  and components, building the driver, running the recorder.

The replay driver that `app/` builds and links with the glue module is a
separate program, built from its own manifest; it is not the code of
`src/driver.rs`, which states and proves the driver's decisions and is run
by the tests only.
