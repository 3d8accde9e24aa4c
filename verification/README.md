# cube_api

The decision logic of the Cube API server, verified with Verus.

- `src/` is the library. Every function in it has a contract over a mathematical
  model of its data, and every law is a public proof function.
  - `text`, `paths`, `json`, `error`: texts, paths, JSON values and errors.
  - `envd`, `jupyter`, `exec_code`: a snippet on its way into a sandbox, and the
    answer on its way back.
  - `registry`, `topology`, `examples`, `sources`: the examples, their graphs, their
    listing and their sources.
  - `templates`, `requirements`, `plan`, `run`, `replies`, `environment`: how an
    example is run, from the search for a template to the answer.
  - `endpoint`, `service`: the two ways to ask for a run.
  - `store`, `images`: the template store and its images.
  - `sandboxes`: the sandbox endpoints.
- `app/` is the HTTP server around it. It does what the library asks for: it sends
  requests, reads and writes files and runs processes.
- `tests/` runs the library on concrete values.

What has to wait for the outside world is a state machine: a `Search` or a `Run`
says what it wants next, and goes on with what came of it.

A few functions of outside crates and of the standard library are called through
small wrappers whose contracts are not proved. Each wrapper's comment names the
function and says what is claimed of it.
