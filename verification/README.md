# codex_api

Talks to chat completions providers.

`src/` is the library, verified with Verus:

- `endpoint` puts a request into the words of a provider and makes the call
  that opens the stream of the answer.
- `sse` takes in the event streams of the providers, one poll at a time, and
  says what their reader gets.
- `tool_name` flattens the names of tools and takes them apart again.
- `protocol` holds the items and events of a conversation.
- `json` and `headers` state what the library relies on of `serde_json` and
  `http`.
- `text` and `gather` hold what the others need of strings and sequences.

What holds of the library as a whole is stated by the proof functions whose
names begin with `law_`.

`app/` connects the library to the network: it polls the streams, converts to
and from JSON, and carries the calls.
