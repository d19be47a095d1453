# tikovm

Micro VMs on one host: networks, block volumes, lifecycle, workloads inside the
guests, an authenticating proxy to their ports, and a terminal dashboard.

The library under `src/` holds the rules and is verified with Verus. It does no
IO: where something has to be done outside it plans the steps, and where
something came of them it takes the outcome and decides what is next.

- `net` carves subnets out of a supernet and plans bridges, TAPs and NAT rules.
- `storage` maps block requests onto chunk files, keeps track of open and dirty
  ones, and decides about the workers that serve volumes.
- `vmm` is the VM state machine, creation and its undoing, the Firecracker API,
  guest workloads, auto-suspend and cron schedules.
- `proxy` mints and verifies port tokens, reads PostgreSQL startup messages and
  resolves targets.
- `api` is the authentication, the errors and the rules of the REST API.
- `guestd` is the agent inside a guest.
- `vmtop` is the dashboard: listing, selection, formatting and layout.
- `text`, `json`, `bytes` and `clock` are what these share.

Functions named `law_...` are proofs of what holds of several operations
together.

`app/` is the programs: command lines, sockets, processes, files, async tasks,
the terminal, and the JSON forms of the library's types. It carries out what the
library plans, in the order and with the waits that the library gives. `tests/`
runs the library.

What the proofs rest on, besides Verus, are the contracts of the functions
marked `external_body` and of the `assume_specification` items. Each says above
it what it claims of which function of `std`, `chrono`, `serde_json`,
`jsonwebtoken`, `rand` or `cron`.
