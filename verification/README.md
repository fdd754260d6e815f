# common_amm

The decision logic of a set of ink! AMM contracts — a constant-product pair
and its factory, two routers, a stable-swap pool, and a wrapped native
token — written in Verus, with contracts that say what each function
returns and how it changes state.

Calls into other contracts and reads of the chain environment are made by
the contract shell; their results are handed to the library as arguments,
and what the library decides to ask or pay is handed back as values.

Layout:

- `src/` — the verified library, one module per contract or concern:
  `pair`, `factory`, `router`, `router_pool`, `router_v2`, `stable_pool`,
  `amp_coef`, `token_rate`, `ownable`, `wnative`, `rate_provider`, and the
  shared `amounts` (pricing formulas), `u256`, `ledger` (the PSP22 ledger),
  `helper`, `events`, `checks`, `errors`, `constants`, `account`.
- `tests/` — tests that run the library on concrete values.
- `app/` — glue for the contract side: reading the environment, converting
  addresses and ledger events, and drivers for the messages of the pair,
  the factory, both routers (the second one's hop-by-hop price loops look
  each pool up through the router's cache), the stable pool and the wrapped
  token. Each driver makes the calls that the library decides on, in its
  order, against a trait that stands for the chain; the stable-swap
  arithmetic comes in as a function of the inputs that the library gathers.

The pools' liquidity functions (a pair's `mint`, `burn` and `swap`, a
stable pool's deposits and withdrawals) leave the pool as it was when they
return an error: they check everything that can fail before they write,
as the chain reverts a failed message. Each pool keeps its liquidity ledger
in the storage of its own contract (`ledger`), one ledger per contract.
