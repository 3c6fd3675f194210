# deepseek_code

The core of a coding agent for DeepSeek models, verified with Verus.

`src/` holds the rules: what goes on the wire and how replies are read back, how a
turn proceeds, how goals and plans change, what is kept of a long conversation,
how sessions are stored, and how the harness runtime is spoken to. Every public
function states what it returns; public proof functions state what holds of
several of them together.

- `text`, `order`, `table`, `paths`, `json`: texts, sorting, small tables, paths, JSON values
- `message`, `wire`, `encode`, `stream`, `api`, `ids`: the conversation protocol
- `clock`, `stamps`: the times that the model is shown
- `session`, `history`, `goals`: what is kept between turns
- `context`, `tools`: what the model sees of a workspace, and the tools it may call
- `agent`, `turn`, `events`, `driver`: one turn, and a run of turns toward a goal
- `harness`, `harness_backend`, `console`: turns that an outside runtime carries out

Clocks, random identifiers, JSON text, character sets and lossy UTF-8 come from
other crates and from std. The functions that call them say in their doc comments
what is taken from there without proof.

`app/` is the program around the library: HTTP, files, processes, terminals, and
commands as lines of JSON on standard input and output.
