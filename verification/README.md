# noda

`noda` is a self-hosted control plane and agent for rolling out releases to a fleet of machines.
The control plane stores releases, assets, deployments and commands, and decides which asset gets
which command when. The agent on a machine carries out its commands: it installs and activates a
release, finds out whether the machine is as it should be, and goes back where it is not.

## Layout

- `src/` is the library. It is verified with Verus, against the contracts of ten outside functions
  that are believed without proof (see below).
  - `types/`: manifests, requests, records and the states that they go through
  - `db/`: the stored rows, the statements that change them, and the operations made of them;
    `integrity`, `limits`, `rollout`, `repeat` and `independence` hold the laws of these
    operations
  - `api`: what the control plane answers to requests
  - `executors/`: how a release is installed and activated, as plans of steps, and in `course`
    which step comes next
  - `agent/`: the rounds of an agent, the commands that it carries out, and what it makes of a
    start of the machine
  - `clock`, `digest`, `ids`, `links`: times, digests, identifiers and addresses
  - `text`, `text_map`, `paths`: texts, maps of texts and paths
- `app/` is the program around it: the command line, HTTP, SQLite, files and processes.
- `tests/` runs the library.

## How the parts meet

The operations on the records work on a `Database` that holds the rows of all tables. The program
loads the rows, calls an operation, and carries out in SQLite the statements that the operation
has recorded. That these statements lead from the loaded rows to the rows of the answer is proved.

An agent is a state machine. `agent::advance` takes what came of the last action and says what to
do next. The program does it. Carrying out one command is such a machine of its own, in
`agent::execution`.

The steps of a plan are carried out by the program. Which step is next, and whether the plan has
succeeded or failed, is said by `executors::course` from what came of the steps before.

What is expected of the next start of a machine, and how to go back, is stored before a generation
of a system is activated.

## What is believed

The proofs rest on the contracts of ten functions, each with the claim that it makes above it:

- in `clock`: `utc_now`, `parse_rfc3339`, `to_rfc3339` and `seconds_after`, over `chrono`
- in `digest`: `sha256_of`, over `sha2`
- in `ids`: `fresh_id`, over `uuid`
- in `links`: `parse_url` and `local_path`, over `url`
- in `db::error`: `to_sql_err`, over `rusqlite`
- in `text`: `String::push` of the standard library

Nothing in `app/` is verified: that it does what the library asks for, and hands back what came of
it, is a matter of reading it. Whether a deployment is over its limit of failures is a question of
floating point, which the program answers.
