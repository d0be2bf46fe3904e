# omnifs_sdk

A provider kit for a filesystem whose directories and files are computed: a
provider registers routes, the host sends browse operations (look a child up,
list a directory, read a file), and the kit decides what each operation does.
Every side effect goes to the host as a callout, and an operation that waits for
one is parked until it is resumed.

The library under `src/` is written in Verus: each function carries a contract
over mathematical models, and Verus proves the code against it. What relates
several functions is stated in public proof functions whose names begin with
`law_`.

| Module | What it holds |
|---|---|
| `router` | route templates, precedence and ambiguity, registration, dispatch |
| `captures`, `identity`, `object` | typed keys, logical ids, the object model |
| `repr`, `content_type` | representations of an object by content type |
| `projection`, `file_attrs`, `handler`, `browse` | what handlers return, and how it lowers |
| `cx`, `async_runtime`, `range_handles` | callout queues, suspended operations, open files |
| `fetch`, `headers`, `endpoint`, `http_endpoint`, `blob`, `git` | callout builders and their replies |
| `rate_limit`, `time` | the per-authority breaker |
| `error`, `wire`, `path`, `text`, `config`, `init`, `helpers` | shared types |

Calls into other crates stand behind a few functions whose contracts are
believed rather than proved; each says in its comment what it claims of the
function that it calls.

`app/` runs the library: handlers as `async` functions, the clock, the breaker
of a thread, and JSON.
