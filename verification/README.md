# chimera

The core of a runner for GitHub Actions, verified with Verus.

`src/` is a library without I/O. It decides what a runner does; its contracts say what each decision is.

- `job/manifest`, `job/schema`: job manifests, made plain and read.
- `job/expression`: `${{ ... }}` expressions and conditions. What an expression needs from outside (the value of a
  numeral, the digest of files) it asks for with a `Request`, and is evaluated again with the answer.
- `job/execute`, `job/flow`: the environment of steps, and the course of a job from its first pre step to its
  conclusion.
- `job/action`: where actions come from, what runs them, and the commands and containers that they are run with.
- `job/commands`, `job/workspace`: workflow commands in the output of a step, and the files that steps write.
- `job/client`, `job/timeline`, `job/logs`, `job/live_feed`: the requests and messages with which a job is reported.
- `runner`: waiting for jobs, cancellation, the environment of a job.
- `node`, `path`, `raw_path`, `json`, `str_map`, `text`, `utils`: what the rest is built on.

Proof functions whose names begin with `law_` state what holds across functions.

`app/` is the program around the library: it sends requests, runs processes and containers, and reads and writes
files. `tests/` runs the library on concrete values.
