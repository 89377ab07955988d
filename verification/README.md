# xycloans

Flash loans on Soroban, with the lending logic verified in Verus.

- `src/` is the verified library. Each contract's decisions are functions
  from the contract's storage entries (as plain values) and the call's
  arguments to the new entries and the result:
  - `pool`: the liquidity pool. Lenders deposit the pool's token and get
    shares; borrowers pay a fee of 0.08% on each flash loan, and the fee is
    spread over the shares through a fee-per-share accumulator, with the
    rounding remainder carried over as dust. `pool::laws` and `pool::ledger`
    state what every operation keeps (the fees are conserved, the pool stays
    solvent, a deposit earns nothing of earlier fees, matured fees are paid
    once).
  - `flash_loan_vault`, `fl_vault`: vaults that keep each lender's fee shares
    in batches.
  - `flash_loan`, `prototype`: flash loan contracts with their fee rules.
  - `factory`: the register of one pool per token.
  - `archive_vault`: the share accounting of the first vault.
  - `fixed_point`: the rounding of the `fixed_point_math` crate, which the
    pool calls.
- `tests/` runs the library on concrete values.
- `app/` holds the Soroban contracts around the library for the pool, the
  batch-numbered vault, the flash loan and the factory: storage, token
  transfers, authorization, cross-contract calls and events. The
  timestamp vault (`fl_vault`), the prototype and the archived vault signed
  their calls with an authorization scheme that current Soroban no longer
  has, so they have no contract here: their logic is the library alone, and
  the steps it leaves to a caller (the transfers, the calls into the fee
  vault) stand nowhere.
