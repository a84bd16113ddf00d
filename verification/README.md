# mew_agent

The core of a browser agent that works on a user's task in a visible browser: it
plans the task, keeps a checklist of its parts, asks a model for the next action,
carries the action out, and answers the user. Everything that decides is written
and proved in Verus; what talks to the world stands around it.

## Layout

- `src/` is the verified library.
  - `text`, `clock`, `digest`, `json`, `sorted_map`: the ground that the rest stands
    on. Messages are specified over the characters of their parts, so the contracts
    say exactly what is rendered.
  - `planner`, `todo`, `planner_run`: a task is split into todos, and a todo counts as
    done only on evidence that the planner computes for itself.
  - `completeness`, `budget`, `pacing`, `captcha_telemetry`, `telemetry_history`,
    `captcha_solver`: the checklist behind `finish()`, caps on steps and seconds, waits
    between repeated actions, and the count of challenge pages.
  - `agent`, `agent_loop`, `model_reply`, `tools`, `dispatch`, `page_tools`,
    `checklist_tools`, `loop_order`, `history`, `nav`, `session`: the steps of the
    agent loop, each a method of `Agent` that takes what the world gave and leaves
    what is to be written and reported, and the order of the steps.
  - `chat`, `chat_agent`, `orchestrator`, `handoff`, `research`, `router`,
    `classify_cache`, `summarizer`, `end_of_task_passthrough`: the conversation, from
    a message of the user to the reply.
  - `eval`: scenarios, checks on their outcome, and reports.
- `app/` is ordinary Rust around the library: settings and telemetry on disk, the
  message bus, the wire forms of the types, and the drivers of the loops. What the
  drivers need of a browser, a page inspector, a session and workers is given by the
  traits in `app/outside.rs`.
- `tests/` runs the library.

## Reading the contracts

A function that reads the clock or draws a random number comes in two forms: one
whose name ends in `_at` or `_with` takes the reading and has an exact contract, and
one that reads for itself says that some reading gave its result.

What `serde_json`, `url` and parts of the standard library compute is named by
functions without a body (such as `json::json_string`), and beside each function
that makes such a call stands one that takes the result as an argument.

Laws that relate several functions are public proof functions whose names begin with
`law_`, at the end of each module.
