# ccp

The capacity commitment prover of a Fluence host: it keeps one RandomX proving job per
compute unit that the network assigns to the host's physical cores, numbers and stores the
proofs it finds, and keeps hashrate statistics.

`src/` is the verified library (Verus):

- `roadmap` — the alignment roadmap: from the current provers and the new allocation, the
  actions (new jobs, moves, creations, removals) that make the provers prove exactly the new
  allocation; proof cleanup on a new epoch.
- `alignment` — carrying a roadmap out: each action gets the prover it works on, and the
  provers that stay are put back afterwards.
- `allocation` — threads per physical core and the share of the dataset each thread
  initializes.
- `nonce`, `job`, `types` — local nonces, difficulty checks, golden proofs, and what a
  proving thread does on each message and on each failure.
- `proofs` — proof file names, proof indices across epochs and restarts.
- `hashrate` — what proving threads report, and the counters kept from it.
- `config`, `errors`, `messages`, `status` — plain data of the prover.

`app/` holds the runtime around it: files on disk, the prometheus endpoint, the utility task,
the shared list of utility cores, and the host prover that drives compute-unit provers (their
RandomX threads plug in through a trait). `tests/` holds the tests.
