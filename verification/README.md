# danny

Danny analyses JavaScript and TypeScript projects. It finds unreachable files
and modules, unused exports, symbols and class members, import cycles, code
smells, and how much a bundle could shrink. It then reports these findings as
text or JSON.

The library under `src/` is written in Verus, and each function carries its
contract. The contracts cover:
- the validation of project identifiers, names, paths and entry points;
- ignore patterns and gitignore conversion;
- the import-cycle search (Tarjan's algorithm over the module graph);
- the conversion of a module-graph snapshot into findings, with their
  statistics;
- the quality detectors;
- the text of every report;
- the project configuration and its commands;
- the feed and monorepo views.

Properties that span several operations are proved in `src/laws.rs` and in
the `ensures` clauses of the functions they describe.

`app/` is the command-line program around the library. It handles argument
parsing, configuration files, file-system walks, the bundler and terminal
output. `tests/` runs the library on concrete inputs.
