# jcode_security

Repository security knowledge for a coding agent, verified with Verus.

A repository can keep a small security graph at `.jcode/security-graph.json`: nodes
such as components, assumptions and threats, the edges between them, and the SHA-256
of the sources that were reviewed. Before each request the graph is read again and
supplied to the model as an advisory context. A second part assesses proposed writes
of Python files by what they add to the findings of a taint analysis.

- `src/` is the library. It holds the graph and its rules (`graph`, `path`, `sources`),
  its JSON (`json`, `encode`, `decode`, `roundtrip`) and its file (`store`), the review
  of its sources (`review`), the text of the context (`prompt`, `context`), how a graph
  is looked for (`load`, `discovery`, `location`, `options`), the policy for writes (`lint`, `scan`,
  `write_gate`) and what an agent puts before a model (`agent`).
- `app/` reads files and the environment, runs processes, and hands the library plain
  values.
- `tests/` runs the library.

Loading a context alternates between the file system and the library: `load` says what
it asks next and goes on with the answer, and `discovery` states what a whole load comes
to. The text of JSON documents and its parsing are serde_json's and SHA-256 is sha2's; they
stand behind functions whose contracts name their results. Since parsing keeps only the
last of repeated fields, `app/` hands over a second reading in which every field is kept.
