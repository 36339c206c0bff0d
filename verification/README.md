# smart_shell

A shell assistant that turns plain-language requests into shell commands,
written in Verus: the library under `src/` is verified, and `app/` is the
interactive program around it.

- `src/task.rs`: planned tasks and their checked updates.
- `src/llm.rs`: chat requests to the model and what its replies ask for
  (the `CMD:` / `HIL:` reply format and its fallback).
- `src/agent.rs`: the agent's token budget, its context window, and the two
  halves (prepare a request, read the reply) of planning and summarizing.
- `src/tool.rs`: the shell tool's reports and its blacklist of dangerous commands.
- `src/cli.rs`: what a line typed at the prompt means.
- `src/text.rs`: white space, trimming, ASCII case folding, decimal rendering.
- `src/laws.rs`: properties that hold across these operations.
- `app/`: HTTP exchanges with the model (reqwest, serde_json), the shell
  process, and the coloured prompt.
