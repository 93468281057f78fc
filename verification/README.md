# substrate_pallets

Three runtime modules of a small blockchain, verified with Verus:

- `kitties` — kitties with a 128-bit DNA, created with random DNA or bred from
  two parents; each account's kitties form a doubly linked list kept in a
  storage map (`OwnedKitties`). `owned_list` states what that storage means
  (the sequence of an account's kitties) and proves that appending, removing
  and transferring act on that sequence as expected.
- `poe` — proof of existence: accounts claim byte strings, owners revoke,
  hand on or price their claims.
- `erc20` — a token with a supply minted to its creator, transfers and
  approvals.

`node` chooses the chain specification a node starts with from its
command-line identifier.

`storage` is the key-value map that holds the modules' state, `origin` the
origin of a call, and `hashing` the SCALE encoding (parity-scale-codec) and
Blake2 hash (sp-io) from which a kitty's random bits come. What the chain
supplies (the caller, the block number, the random seed) is passed in as
arguments.

`app/` holds SCALE-encodable copies of the kitties' storage values.
