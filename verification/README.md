# Nexa

Nexa is a local coding agent: a headless server that runs chats with
OpenAI-compatible models inside a workspace, and two front ends for it, a
fullscreen terminal UI and a desktop window.

The library in `src/` holds the rules of all three and is verified with Verus.
Every function states what it returns or changes; laws that span several
functions stand beside them as public proof functions.

| Module | What it decides |
| --- | --- |
| `protocol` | commands, events and summaries on the wire |
| `session`, `registry` | a session's durable log and its runs; creating, opening and listing sessions |
| `agent`, `tools` | the tool rounds of a run; reading and editing files inside the workspace |
| `openai`, `response`, `sse`, `reasoning`, `json` | provider requests, streamed answers, model listings, effort levels |
| `config`, `token`, `cli` | providers, credentials and settings; the server's token file; the setup dialogue |
| `server`, `client`, `network`, `local_server` | answers, requests, and the steps that join them |
| `tui`, `screen` | the terminal UI's state and its lines |
| `desktop`, `panels`, `markdown`, `labels`, `choices` | the window's state and what it shows |
| `text`, `table` | strings as sequences of characters, ordered tables |

Calls into other crates go through a few items whose contracts are believed
rather than proved. Each names the function it calls and says what it claims.

`app/` is ordinary Rust around the library: files, HTTP, processes, the terminal
and the window. It performs the actions that the library asks for and hands back
what came of them. One executable serves as `nexa`, `nexa-server` and
`nexa-desktop`, by the name it is started under.

`tests/` runs the library on concrete values.
