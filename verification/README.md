# a3s_effect

An actor framework over an immutable event log, with a coding harness on top.
The rules are verified with Verus; the runtime that awaits services and writes
files stands around them.

A component folds the facts of a thread into a view and the transitions that the
view enables. The runtime performs the first enabled transition, appends the facts
it produced with the transition's key as their cause, and reads the log again. A
transition whose key is a cause in the log is never selected, so resuming a thread
continues unfinished work and does not repeat finished work.

## Layout

| Module | What it holds |
| --- | --- |
| `fact` | facts, their lines, the digest that a log is cut at |
| `fact_report` | what is wrong with a text that spells no fact, and where |
| `log` | the rules of appending, the log in memory |
| `log_file` | a log as the text of a file |
| `actor` | components, selection of transitions, the steps of settling a thread |
| `actor::mount` | components inside components and the prefixes of their keys |
| `effect` | the decisions of the operators on programs |
| `coding` | the coding harness: configuration, view, facts of callers and services |
| `scheduler` | the state machine of the harness |
| `scheduler_laws` | what holds of every log that it is folded over |
| `compose` | recipes and graphs of components |
| `payload`, `schema` | payloads of facts and how records are read |
| `json`, `json_text` | JSON values, and their text by way of serde_json |
| `text` | texts as sequences of characters |

Public proof functions whose names start with `law_` state what relates several
functions. `app/` holds the asynchronous programs, the services, the log in files
and the serde records. `tests/` runs the library.

## What is trusted

serde_json parses and prints values, reads the values of a record where they
stand, and keeps numbers, sha2 hashes, and the standard library writes a text in
its debug form and pushes a character. Each such call stands behind a declaration
whose doc comment says what it claims.
