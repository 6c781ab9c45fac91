# clawtao

The backend of the ClawTao desktop agent: a JSON-RPC 2.0 server over stdio
that keeps chat sessions, talks to OpenAI- and Anthropic-style model APIs,
and compacts long conversations.

- `src/` is the library, verified with Verus: the session stores' models
  and the JSONL cache, the JSON-RPC handlers, request building and stream
  parsing for both API protocols, the chat turn as a state machine,
  compaction, token estimation, configuration and skills.
- `app/` is the program around it: stdin/stdout, HTTP, files and SQLite,
  threads per session, logging.
- `tests/` exercise the library.
