# opie

A local-first coding assistant that talks to a completion server
(llama-server or Ollama) and can read, write, search and patch files and run
shell commands on the user's behalf.

- `src/` is the verified library: conversations and their prompts (with
  trimming to a token budget), the agent's turn as a sequence of decisions,
  the tools' rules (line windows, string patches, search and command
  reports), the tool registry and system prompt, saved-session naming and
  listing, settings paths, and the text operations they rest on. Verus
  verifies all of it; the calls into std and outside crates stand in a few
  small trusted functions, each documented with what its contract claims
  (some, such as whether a file exists, claim nothing of their result).
- `app/` is the `opie` command: settings and session files, HTTP requests to
  the completion server, running commands and tools, and the chat loop,
  each step handed to the library for its decision.
- `tests/` runs the library on concrete cases.
