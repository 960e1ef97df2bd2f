# wazuh-slack

A connector that carries Slack activity into Wazuh, written as a verified Verus
library with a thin program around it.

## Layout

- `src/` is the library. Everything in it is verified: normalization, filtering,
  the pollers and the Socket Mode listener as state machines, delivery, spool and
  replay, health reports, the tier probe and the supervisor's decisions.
- `app/` is the program `wazuh-slack`: command line, HTTP, WebSocket, files,
  SQLite, metrics and tasks. It carries out what the machines of the library say
  and tells them what happened.
- `tests/` runs the library on concrete values.

## How the machines work

A poll, a listener, a delivery, a replay and a probe are each a value with a
`step` function. It takes what happened and returns what to do next. Its contract
is one equation with a specification function from state and input to state and
action; what holds over several steps is stated as a public proof function whose
name begins with `law_`.

A source that keeps a cursor stores it only after every event before it was
delivered or dropped by the filter. An event that could not be delivered ends the
poll, which then stores nothing more, and the next poll fetches it again. The Audit
Logs poller stores the cursor of each further page as it comes to it, so there the
next poll takes up at the page of that event.

## What is trusted

Calls into `serde_json`, `chrono`, `regex`, `lru` and `libc`, and a few functions of
the standard library, stand behind small wrappers. The doc comment above each says
what its contract claims.
