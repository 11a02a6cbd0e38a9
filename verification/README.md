# perry

Typed feedback for a JavaScript runtime whose values are NaN-boxed, and the
generator pass of its compiler, in Verus.

Generated code asks a *feedback site* at each dynamic boundary. The site records
what it sees, up to four different observations, and tells whether a fast path
may be taken. The library proves what is recorded, what a guard answers, and what
is left for the runtime to do.

- `value`, `number`, `equality`: values by their bits, doubles included.
- `heap`, `classes`: what is known of cells and of classes.
- `array_facts`, `contracts`: what is recorded of arrays, and when a fast path is
  sound.
- `observation`, `site`, `registry`, `invalidation`, `visitor`: sites and their
  life, and what the collector is shown of them.
- `feedback`, `runtime_call`: the entry points of generated code.
- `snapshot`, `names`, `trace`: reports, as values and as JSON.
- `hir`, `work_stack`, `generator`, `generator_laws`: lowering generators without
  recursion on the call stack.

`app/` holds the registry of the process and the trait that a runtime implements.
