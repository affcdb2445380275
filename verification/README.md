# ai_brain

A verified library for an assistant that is made of several brains: a main brain
that talks to the user and runs tools, a master brain that weighs what the other
brains say, and a memory brain that keeps, recalls and condenses what was said.

- `src/` is the library. Every function states in its contract what it returns or
  changes, over mathematical views of its types, and Verus proves it.
  - `llm`: requests, replies and streams of the services that run the models
  - `main_brain`: the conversation, the loop of the model and the tools, and how a
    conversation is made shorter
  - `master`: the weights of the brains and the rounds of the master brain
  - `mcp`: servers of tools
  - `memory`: the stores of the memory, the analysis of conversations, and the
    canon of novels
  - the other modules: text, JSON, lists and orders that these build on
- `tests/` runs the library on concrete values.
- `app/` is ordinary Rust around the library: network, files, database, and the
  loops that wait for them.

Floating-point numbers pass through the library as their bits or as decimal text;
arithmetic on them is in `app/floats.rs`. Times are milliseconds of Unix time that
the caller hands in. What the library takes from other crates stands behind small
functions whose comments say what is believed of them: `src/text.rs`,
`src/json.rs`, `src/times.rs`, `src/llm/http_client.rs` and
`src/llm/openai_compat.rs`.
