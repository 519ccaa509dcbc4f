# taskqueue

A job queue on redis: tasks are registered by name on named queues, jobs are
enqueued as MessagePack messages, and workers run each job's task, retrying it
while retries are left, then record it as succeeded or failed.

- `src/` is the library, verified with Verus: the task registry and the worker plan (`server`), job
  metadata and how a run is settled (`jobs`), the broker and result store
  settings and keys (`broker`, `results`), the redis URL both connect to
  (`connection`), a name-keyed map with unique
  names (`namemap`), decimal numerals and slash trimming (`text`), the "add"
  task's arithmetic (`tasks`), and the trusted calls into redis, uuid,
  num_cpus and std (`ext`).
- `app/` is the program around it: the async broker and store interfaces, their
  redis implementations, the worker loops, and the serde forms of the messages.
- `tests/` runs the library on concrete values.

Tasks and queues are kept in `NameMap`, a list of entries with no name twice,
rather than in a `HashMap<String, _>`: Verus proves next to nothing about a
`HashMap` keyed by `String` (not even its length after one insert), while the
list's contents and its invariant are proved outright.
