# rlm_repl

A Python REPL for recursive language models, verified with Verus.

Each round of the REPL runs a code block in a `python3` process of its own. Variables persist in a
state file. Inside a round, `llm_query()` and `sub_rlm()` call models through a local HTTP sidecar.

- `src/repl/`: the script and the environment of a round, what it shows of its output, and the
  runtime that keeps the state between rounds.
- `src/rlm/`: the system prompt of the root model, and the decisions of the sidecar.
- `src/models.rs`: requests to a model, its replies, and token usage.
- `src/text/`: lines, searches, numerals and byte lengths of text.
- `app/`: the processes and the HTTP server around the library. The host supplies the model client,
  the turn driver and the parser of final markers.
