# Schooner

A node of the Raft consensus algorithm, with its decisions verified by Verus.

## Layout

- `src/` — the verified library.
  - `schooner/consistent_log.rs`: the replicated log.  An AppendEntries
    request is taken, refused, or causes a truncation exactly as
    `after_request` says; each change queues a `LogWrite` for the log file.
    The laws of log repair (a leader behind, ahead, or on another term) are
    proved here.
  - `schooner/server.rs`, `leader.rs`, `follower.rs`, `candidate.rs`: the
    state machine of the Raft task; `handle_event` says what each event of
    its main loop does.
  - `schooner/net/`: message framing (`Content-Length`, `Server-Id`), the
    decisions of the task of each peer, and the peer manager.
  - `schooner/peer.rs`: the peers' config file.
  - `schooner/state_machine.rs`: the lock service and its laws.
  - `server.rs`, `log.rs`, `append_entries.rs`: the standalone server whose
    follower answers requests over TCP, and the command log.
  - `text.rs`: decimal numbers, trimming and splitting, against their
    mathematical definitions.
- `app/` — the program: TCP, threads, timers, the log files and JSON.  It
  waits for events, hands them to the library, and carries out what the
  library decided.
- `tests/` — tests of the library.
