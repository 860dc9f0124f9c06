# codex_runtime

The decisions of a coding session, verified with Verus: goal schedules and the reminder that a model
sees, quota observation, the goal tools, compaction of a conversation around its last tool
transaction, equal tool calls, notices of queued messages, and the opening of the session's
databases.

- `src/` is the library. Types that hold texts and lists have a mathematical model (`DeepView`), and
  contracts say what a function returns as a function of those models. The goal tools and the opening
  of databases hand their values on as they are; their contracts speak of the values themselves. Laws
  that span functions stand as public proof functions.
- Work that lies outside (stores, transports, clocks, tasks) is not done in `src/`. Where decisions and
  such work alternate, a function takes the phase and the event and gives the next phase and action.
- Calls into `chrono`, `iana-time-zone`, `serde_json`, `sha1` and the standard library stand behind
  small wrappers, each with a comment that says what is believed of the call.
- `app/` performs the actions and holds the wire forms of the types.
- `tests/` runs the library on concrete values.
