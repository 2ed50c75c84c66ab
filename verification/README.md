# agent_hub

The rules of an agent hub, with contracts that Verus proves: who may sign in and
how often, what is accepted of agents, automations, applications and widgets,
when scheduled work is due, how the tools of a client are called, how an account
is erased, and what the command-line client asks for.

## Layout

- `src/` is the library. Every item of it is verified. A rule is a function from
  plain values to plain values. A conversation with the database, a directory or
  a store of objects is a state machine: a function takes the state and what was
  found, and gives the next state and the next thing to do.
- `tests/` holds the tests of the library.
- `app/` is the program around it: the `agent-hub` command, and the server that
  finds and stores what the library decides on.

| Modules | What they are about |
| --- | --- |
| `text`, `numeral`, `order`, `json`, `clock`, `ids`, `digest`, `error`, `pagination` | the ground that the rest stands on |
| `identity`, `account`, `login`, `throttle`, `api_key`, `ldap`, `forwarded`, `erasure`, `retirement` | users, their logins and their erasure |
| `agent`, `agent_setup`, `agent_config`, `agent_flow`, `model_settings`, `model_options`, `model_check`, `mcp` | agents, their models and their runs |
| `automation`, `schedule` | work that starts by itself |
| `web`, `oauth`, `jwt`, `access`, `integration`, `integration_app` | applications and the tokens they use |
| `widget`, `widget_profile`, `widget_run` | widgets, their users and their messages |
| `tools`, `tool_batch`, `tool_calls` | tools that clients run |
| `client` | the command-line client |

Functions of other crates are called behind small wrappers. The comment above
each says what it relies on. Where such a function returns more than a few lines
can say, its result only has a name, and the rules are stated over that name.

Public proof functions state what holds of several functions together, such as
that a stored key that was renewed never expires earlier, or that the result of
a tool is recorded once.
