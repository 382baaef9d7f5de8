# runnerdock

Runner Dock keeps self-hosted GitHub Actions runners on a Windows machine
(natively or inside WSL) under one user Agent, which the desktop shell and
the CLI drive over an owner-only named pipe.

`src/` is the verified library (Verus): the wire contract (methods, IDs,
errors, messages, frames, handshake), the runner domain (effective state,
freshness, remote observations, operations and their idempotency, the
event sequence, the mock backend), the Agent's request handling and
session rules, the pipe name and DACL decisions, the client's reply
handling, the desktop bridge's refusals and the TypeScript renderer of the
contract schema. Each public function states what it returns in `ensures`;
the properties that span several calls are stated as `lemma_*` proof
functions beside the code they speak of.

`app/` is ordinary Rust around it: the command line, logging, serde and
schemars, tokio, and the Win32 calls (SID, mutex, pipes, process start).

`tests/` runs the library on concrete values.
