# artel-fs

A file system workspace that several machines share. A workspace keeps a
directory tree in step with a replicated document: a file is an entry whose key
is made from its path. One machine hosts the workspace in a session, others
join it, and the host decides who may write.

- `src/` is the library, written and proved in Verus. It makes the decisions:
  which paths sync, what a change or an entry leads to, who is blocked, what a
  revoke calls for, and in which order a workspace comes up and goes down.
- `app/` is ordinary Rust around it: files, network, the daemon and the tasks.
- `tests/` runs the library.

What the library has from other crates (`blake3`, `globset`, `iroh-base`,
`postcard`, `rand`, `unicode-normalization` and parts of `std`) stands behind
small functions marked `external_body`; the comment above each says what is
taken on trust.

Public proof functions whose names begin with `law_` state what holds of the
library as a whole.
