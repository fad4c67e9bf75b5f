# nfs

A userspace NFSv4 client library whose protocol logic is verified with Verus.

## Layout

- `src/xdr.rs`: XDR encoding and decoding of primitive items; every encoder
  states the exact bytes it appends, decoders state what they read and that
  the encoding of a value reads back as that value.
- `src/rpc.rs`: ONC RPC call messages with AUTH_SYS credentials, record
  marking and reply parsing.
- `src/v4/proto.rs`: NFSv4 protocol types, status and operation codes, the
  exact XDR bytes of every request (`Encode::xdr_bytes`), reply decoding and
  attribute parsing.
- `src/v4/client.rs`: rules applied to replies (which result answers which
  operation, session limits, paging cursors, lock registry, path handling).
- `src/v4/blocking.rs`: the client: sessions, COMPOUND sequencing, recovery,
  locks and the file operations, over a `Transport` that carries COMPOUND
  calls and reports whether a failed call went out (`CallFailure`). Every
  call handed to the transport is recorded in a ghost log (`spec_wire`):
  its bytes, the COMPOUND they encode and the decoded reply. Contracts of
  the session and file operations speak of that log: which requests went
  out, in what order, and what their replies gave.
- `src/error.rs`, `src/retry.rs`, `src/text.rs`: errors, retry policy, text
  helpers.
- `app/`: a TCP `Transport`, the process's credentials, owner-id counters and
  a background lease-renewal thread; this part is ordinary Rust.

Contracts are stated over views (`Seq`, spec functions such as
`xdr_bytes`, `spec_wire`, `spec_last_compound`, `spec_setup`) and proved by
Verus.
