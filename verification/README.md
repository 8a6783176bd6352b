# ironforge_git

The verified core of a Git hosting service. Everything under `src/` is
verified by Verus; the calls into `gix`, `serde_json` and `chrono` stand
behind trusted wrappers whose contracts say what those crates document.

What a function reads from a repository on disk is not known in advance, so
such a function comes in two forms: the plain one, and a `_reported` one
that also hands back, as a ghost value, what it read (a listing, a tree, a
walk, the ids at the start of a rebase). The contract of the reported form
says exactly how the result follows from that reading.

- `pkt_line`, `sideband` — the pkt-line wire format (encoding, decoding and
  their round trip) and sideband framing (frames that fit a pkt-line and
  reassemble to the data).
- `protocol::receive_pack` — push handling: update commands, rejection
  patterns (`*` globs), the signed-commit policy, the report-status response.
- `protocol::upload_pack` — the v1 ref advertisement, want/have negotiation
  and packfile framing.
- `protocol::v2` — protocol v2: capability advertisement, command requests,
  fetch feature validation, acknowledgments, ls-refs lines; `shallow` holds
  depth-limited fetches (the commits within a depth, their sorted boundaries,
  the shallow-info update and the `pack-objects` input).
- `cli_gateway` — the `git` command line a gateway builds and what a
  finished command's output means.
- `ops` — repository operations through `gix` (revision lookup, signature
  checks, refs, blobs, archives) and the rebase-and-merge of a pull
  request, with the replay order of its commits.
- `refs` — the refs and objects the protocol sessions read through `gix`:
  ref listings, HEAD, tag peeling, object sizes, the `ls-refs` answer.
- `json` — JSON documents parsed by `serde_json` and held as plain values.
- `api` — request and response types of the HTTP API, the validation and
  formatting rules of its handlers, and the repository reads of its
  content endpoints (trees, blobs, commit logs, branches and tags).
- `text` — the text operations the rest is stated in.

`app/` runs the library: asynchronous pkt-line I/O, the `git` process with
its timeout, and the protocol sessions.
