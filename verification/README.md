# jex_sc_stablepool

A stable-swap AMM pool for MultiversX (the StableSwap invariant, as in Curve
pools, with swap fees shared between liquidity providers and the platform and
a fee on imbalanced deposits and withdrawals), written as a Verus library.

- `src/` holds the pool: its state (`StablePool`, viewed as `PoolModel`), the
  Newton solvers of the invariant (`amm`), fees, deposits, withdrawals and
  swaps (`liquidity`), the endpoints (`contract`), statistics, pausing and
  access control, and the laws that hold across operations (`laws`).
  Amounts are unbounded integers computed by the MultiversX framework's
  `BigUint`; the few calls into the framework are the only trusted items.
- `app/` connects the library to a chain: it reads the call (caller,
  payments, epoch), performs the transfers, mints, burns and the LP token
  issuance that the library decides, and turns refusals into errors.
- `tests/` runs the library on concrete pools.
