# ab_harness

An inline harness between agents and their model providers. Requests are
admitted, forwarded and relayed; everything that is decided on the way is
written to an audit journal; sessions are closed, promoted and, after a crash,
recovered from what the journal holds.

`src/` is the library, all of it verified: readers of provider responses, header
and identity rules, and the flows that alternate decisions with outside work.
What needs floating point, validates tokens or trajectories, signs receipts or
asks a policy stays outside; the flows say what those services are asked and
what becomes of each answer. A flow is a state machine: `step` takes
what happened and returns what is to be done next, and its contract equates both
with a mathematical `next`. Laws over whole runs stand beside the flows as proof
functions whose names begin with `law_`.

| Part | Modules |
| --- | --- |
| Reading provider responses | `json`, `sse`, `pricing`, `provider`, `capture`, `intake` |
| Relaying them | `relay`, `audit`, `upstream` |
| Admitting requests | `headers`, `identity`, `session`, `request`, `failure`, `admission` |
| Tools | `rpc`, `interception`, `tools`, `tool_call` |
| Finalizing sessions | `closing`, `promotion`, `receipt`, `publication`, `artifact`, `locks` |
| Recovering them | `pass`, `journal`, `replay`, `recovery`, `scan`, `text_set` |
| Running the harness | `config`, `environment`, `secrets`, `seed`, `startup`, `operations`, `dashboard` |
| Texts and errors | `text`, `errors` |

What the proofs take on trust is what the functions marked as external say of
`serde_json`, `hex`, `http`, `dashmap` and a few functions of the standard
library; each says in its comment what it claims.

`app/` is the program around the library: configuration files, HTTP, the spool
on disk, and what stands in one process for the services that a deployment
brings. No receipt signer and no token validator is linked into it: signed
sessions and promotions end in an error there, and a configuration that asks for
tokens is refused at the start.

`tests/` runs the library on concrete values.
