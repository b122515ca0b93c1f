# mirror_contracts

The logic of the Mirror Protocol contracts (mint, staking, lock, oracle,
router, short reward) as a Verus library, with the CosmWasm entry points
around it.

- `src/` — the verified library. Every amount and every decision of the
  contracts is computed here, with contracts (`requires` / `ensures`) over
  integer models of 18-digit decimals, and laws proved as proof functions:
  the staking ledger keeps its totals equal to the sum of the stakers'
  bonds and never pays out more than was deposited (up to one unit of
  rounding per staker); locked funds come back whole; positions keep their
  collateral ratio on withdrawal and conserve collateral on burns and
  auctions; the short reward weight is defined for every premium and never
  exceeds 40%.
- `tests/` — scenarios of the contracts run against the library.
- `app/` — the entry points: messages, storage, queries of other contracts
  and of the chain's treasury, responses.

Two calls leave the library: `cosmwasm_std::Uint128::multiply_ratio` (the
256-bit `a * b / c` behind every decimal product) and
`integer_sqrt::IntegerSquareRoot::integer_sqrt`, each behind a small wrapper
whose contract states what the function returns.
