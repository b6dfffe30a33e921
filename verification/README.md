# farm_credit

Verified ledgers of a carbon-credit platform, written in Verus:

- `src/rbac.rs`: role registry (SuperAdmin, Admin, Verifier, Trader); one role
  per account, a single SuperAdmin.
- `src/token.rs`: the carbon credit token: balances, SEP-41 allowances,
  minting by verifiers, burning, retirement of credits against numbered
  certificates.
- `src/registry.rs`: registry of agricultural verifiers and their soil reports.
- `src/escrow.rs`: delivery-versus-payment escrow with partial fills at the
  offer's rate.
- `src/vecmap.rs`: the association map that stores each ledger.

Every ledger can be taken apart into plain values (`into_parts`) and rebuilt
from them (`from_parts`, which accepts exactly the well-formed ones), so that a
contract host can keep it in storage between calls.

`app/` holds the Soroban contracts: they number addresses, check signatures,
read the ledger sequence and time, call other contracts, publish events, and
keep the ledgers in instance storage.

The token and escrow operations are defined on the calls the contracts
accept; a call they reject (a negative amount, more than a balance or an
allowance, a second initialization, an unknown or cancelled offer) is a
precondition violation, which the contracts in `app/` check first and answer
with a panic carrying the contract's message. The role registry and the
verifier registry report refusals as `Err` values, as their contracts do.
