# pfft-miner

A miner for Pow Free Fair Token on Ethereum mainnet, with its rules proved in
Verus.

A round reads the contract, searches a nonce such that
`keccak256(challenge || nonce)` is at most the target
`(2^256 - 1) >> (4 * hex_zeros)`, has the contract check the nonce, and submits
it. The session ends when the user stops it, when the supply is minted, or when
the wallet has minted 10,000 tokens.

## Layout

- `src/u256.rs`, `src/bytes.rs`: 256-bit numbers and big-endian bytes
- `src/bindings.rs`: the calls into `alloy` and `rand`, with the contracts that
  are taken on trust
- `src/proof_of_work.rs`: targets, difficulties and the check of a nonce
- `src/worker.rs`: the search of one thread, and how threads share the nonces
- `src/search.rs`: what the threads of a search share, and how it ends
- `src/pool.rs`: what holds of a whole search, by all its threads
- `src/watchdog.rs`: the decisions of the hash rate display
- `src/status.rs`: what is read from the contract, shown and decided
- `src/session.rs`: the rounds, as a state machine
- `src/config.rs`, `src/identity.rs`: settings and the private key
- `src/text.rs`: numbers and bytes as text
- `app/`: the program around the library (network, threads, terminal). It mines
  on the CPU; the decisions for a GPU are in `src/config.rs`.
- `tests/`: tests of the library
