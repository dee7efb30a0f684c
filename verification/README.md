# mcpg_runtime

The decisions of a Model Context Protocol gateway: who a caller is, what they
may do, how often, which answers are given again, and how each request is
answered. The library is written in Verus: a function states what it returns and
is proved to do so. Where the clock, a random number or a call into another crate
decides, it states what holds whatever comes back, and a function beside it takes
that value as an argument and says what follows from it.

- `src/` is the library.
  - `runtime`, `message_dispatcher`, `context`, `protocol`: the way of a request.
  - `handlers/`: tool calls, tasks, sessions, lists, prompts, resources and
    completions, as steps from a state and an answer to the next question.
  - `idempotency/`, `idempotency_ops`: repeated calls and the store of their
    answers.
  - `policy`, `policy_gate`, `policy_eval`, `claim_key`: trust floors, scopes,
    conditions, the layers of authorization and the keys of cached decisions.
  - `quota_gate`: rate limits, budgets and caps on calls in flight.
  - `identity`, `jwt`, `token_text`, `identity_plugin`, `inspector_identity`: callers
    and their tokens.
  - `outside`: the calls into other crates. What is said of them there is taken on
    trust.
- `app/` is the program around it: storage, time, threads and the wire.
- `tests/` runs the library with the crates that it calls.

Functions named `law_*` state what holds of several functions together.
