# smt-lang

A small modelling language for constraint problems (booleans, integers,
intervals, reals, structures, classes with inheritance, functions, methods,
quantifiers, optimization) and its solving through an SMT solver.

The library in `src/` is verified with Verus:

- `problem/`: the problem model (declarations, types, expressions), the
  resolution of names and types, and the checks that loading runs
  (duplicates, intervals, bounded parameters, empty types, argument counts,
  types, cycles of classes).
- `load.rs`: the loading pipeline of a parsed problem, stage by stage, with
  the reports of the stages that went through.
- `solve/`: the encoding of a loaded problem into solver terms (`Term`), the
  script of assertions and the objective, and the responses.
- `solution/`: the values read back from a model and how a solution is
  written.
- `error.rs`, `error_text.rs`, `report.rs`: errors and their texts.

`app/` is the command line program: it loads a problem, prints the reports,
and hands the script to Z3 through the `z3` crate, reading values back with
the library's queries. The grammar of the language is not part of these
sources: the program reads the file but cannot parse it, and answers every
file with a parse error.
