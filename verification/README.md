# sourcepawn_core

The verified core of a SourcePawn language server's compiler integration and
HIR types.

- `src/diagnostic_line.rs`: the format of spcomp's diagnostic lines, as a
  specification over characters and a verified parser for it, with the proof
  that a printed diagnostic reads back as it was printed.
- `src/spcomp.rs`: spcomp severities and their LSP severities, diagnostics
  read from spcomp's output, and the spcomp command line.
- `src/type_ref.rs`: type references of the HIR, read from what the HIR sees
  of a syntax node, with their text forms and dimensions.
- `src/chars.rs`: the Unicode character classes the line format uses.
- `app/`: the parts that read the disk and walk tree-sitter trees.
