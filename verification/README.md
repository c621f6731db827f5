# agent_hook

The hook integration of ContextZip for AI coding agent apps (Cursor, Gemini CLI,
VS Code Copilot, Antigravity), as a verified library.

- `src/` (Verus): the hook's reply to an agent's payload (`hook`), the edits that
  install or remove the hook in each agent's config (`config`, `tree`, `files`), the
  command lines the hook is registered under (`command`, `text`), the agent list
  (`agent`), a JSON value model (`json`), JSON text through serde_json (`codec`) and
  the laws proved of them (`laws`).
- `app/`: stdin/stdout, the file system and the CLI enums.
- `tests/`: the behaviour on concrete payloads and configs.
