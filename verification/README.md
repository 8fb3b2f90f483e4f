# zeptoclaw

The decisions of a personal AI agent, written in Rust and proved with Verus: how a
prompt is put together, how a turn with a language model runs and ends, which tool
calls may run, what a client on the ACP channel is answered, and what the gateway
does with commands and approvals.

## Layout

- `src/` is the library. Every function states in its contract what it returns or
  changes, over the models of its types (the types whose names end in `V`, and
  `Seq`, `Map` and `Option` of characters). Functions named `law_..` are proofs of
  what holds of several functions together.
- `tests/` runs the library on concrete values.
- `app/` is the program around it: the HTTP server, the message bus, the programs
  that serve as providers and tools, the configuration file. It hands the library
  plain values and does what the library decides.

| Modules | What they hold |
|---|---|
| `text`, `number`, `cut`, `split`, `paths` | texts, numbers, UTF-8 lengths, paths |
| `json`, `metadata`, `textmap`, `threadmap`, `assoc` | JSON values, maps by text and by thread |
| `bus`, `session`, `providers`, `observations`, `tool_feedback` | messages, conversations, answers, results |
| `context`, `agent_loop`, `intake` | prompts, the agent's state, what happens before a turn |
| `harness`, `turn`, `synthesis`, `harness_state`, `plan` | one turn as a state machine, its plan |
| `tool_calls`, `tool_helpers`, `approval`, `format`, `file_artifact` | one tool call from its arguments to its result |
| `replies`, `stream_guard`, `loop_events`, `a2ui`, `mermaid`, `inbound` | replies, streams, events, charts, attachments |
| `http`, `framing`, `acp_protocol`, `acp_state`, `acp_reading`, `acp_http`, `acp_stream` | the ACP channel over HTTP |
| `gateway` | thread commands, approvals, reloads, checks at the start |

## What is trusted

A few calls into `serde_json`, `base64`, `chrono` and the standard library are not
proved; each stands in a small function of its own with a comment that says what
its contract claims. JSON text goes through `serde_json`: what it reads from a text
and what it writes for a value have names (`json_of_text`, `held_text`,
`held_pretty_text`), and the contracts speak of those.

Fresh identifiers, files, the network, elapsed time and the answers of models come
in as arguments. Prompts name the day by the host's clock, which the library reads
itself: the functions whose names end in `_on` or `_at` take the day or the moment
as arguments, and the others state what holds of every day and moment.
