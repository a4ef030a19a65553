# apollo_graphql

Verified GraphQL tooling in Verus: syntax trees and their serialization to
GraphQL text, the grammar of directive definitions with its syntax tree, and
the schema checks on input objects and arguments.

Modules under `src/`:

- `ast`: the GraphQL syntax tree (documents, definitions, selections, values).
- `render`: the GraphQL text of every node, as specifications.
- `serialize`: the writer, proved to produce exactly that text, with or
  without indentation.
- `render_laws`, `layout_laws`: string values and integers read back to what
  was written; without indentation, every node is written on one line when
  its names, enum values, variables and number texts hold no line break.
- `parser`, `grammar`: a token parser that records tree events and errors,
  and the directive definition grammar.
- `tree_laws`, `grammar_laws`: every rule adds a well-nested tree holding
  the tokens it read, in order; location names read back.
- `syntax_tree`: the parsed tree as plain nodes and as a rowan green tree,
  with its errors and limits, and its text form.
- `union`: union type definitions of generated documents, drawn
  deterministically from unstructured data (the result is stated as a
  function of the bytes left), and their syntax tree definitions.
- `validation`, `validation_laws`: input object and argument checks; a
  reported cycle is real, and a real cycle is reported.
