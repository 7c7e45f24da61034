# typedruby

The front end of a gradual type checker for Ruby, written in Verus: the
library under `src/` states what each part does in `requires`/`ensures`
contracts and Verus proves them.

- `src/` — the verified library: the syntax tree and the builder the
  parser drives, s-expression printing, annotation stripping and
  insertion, the object graph of classes and modules, the resolution of
  type annotations and method definitions, the top-level pass (the walk
  over a file that opens classes and modules, defines constants, queues
  methods and asks for required files, stated as a relation between the
  state before and after), error reporting, the inflection of constant names into
  file paths, and the parts of the checker that hold types, unify them,
  track local variables, match call arguments and describe how evaluation
  ends.
- `tests/` — tests of the library on concrete values.
- `app/` — the command line program around the library: argument
  handling, file input and output, JSON, terminal colours, and the loop
  that loads the files the top-level pass asks for. The Ruby parser
  is a native library that this build does not link, so every parse is
  refused there.
