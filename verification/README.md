# degenfi

A verified accounting core for a collateralised lending protocol on Radix:
user records ("soul bound tokens") with a credit score, a lending pool per
token, a collateral pool, liquidation of unhealthy loans, and a router that
opens pools and routes deposits, borrows, redemptions and repayments.

Amounts are scrypto `Decimal`s held as their count of attos in an `i128`;
products and quotients are computed by scrypto's `Decimal` itself, behind
two trusted wrappers in `src/decimal.rs`. An amount is therefore bounded by
`i128::MAX` attos (about 1.7 * 10^20 whole tokens); an operation whose
result would pass that bound is refused with `Overflow`. Token, user and loan ids are
plain integers. A refused request returns a `ProtocolError` and leaves every
component unchanged.

- `src/` the library, verified by Verus: `user_management`, `lending_pool`,
  `collateral_pool`, `liquidation`, `folded_leverage` (the router),
  `decimal`, `bucket`, `ordered`, `error`, and `laws` (properties that span
  several operations, proved as proof functions).
- `tests/` scenarios run against the compiled library.
- `app/` the ledger-facing forms of the records (with scrypto's
  `NonFungibleData` and `ScryptoSbor` derives) and the methods that report a
  record in the log.
