# stellarspend

The verified core of the StellarSpend Soroban contracts, written in Verus.

- `src/` is the library. Every contract entry point is a function on plain
  values (addresses as strkey text, amounts, ledger times) with a contract
  that states its result exactly, and the laws that span operations are
  proved as proof functions:
  - `allowance_types`, `allowance_rules`: a recurring allowance and the
    rules of creating, paying, pausing, resuming, cancelling, redirecting,
    capping and expiring it;
  - `allowances`: the allowances contract's state (allowances, payee
    registrations, payment history) and its entry points;
    `allowance_laws`: its laws;
  - `address_book`, `reward_types`, `reward_storage`, `reward_validation`,
    `rewards`, `reward_laws`: the rewards contract;
  - `spending_rules`: resolution of conflicting spending rules;
  - `sanitizer`, `transfer`: description checking for transfers.
- `app/` holds the Soroban contracts themselves: they read the ledger
  (storage, time, token balances, authorisation), call the library, and
  write, transfer and publish what it decided.
- `tests/` runs the library on concrete values.

The contract types `AllowancesContract` and `RewardsContract` in `src/` are
verified models of the contracts' ledger storage: their laws (what every
call keeps, what a run of calls adds to a history or a recipient's list,
what a read gives back of a write) are proved of these models. The deployed
contracts in `app/` keep the ledger's own per-key storage instead; they take
every decision through the same verified functions (`Allowance::create`,
`schedule_check`, `plan_distribution`, the `try_*` owner operations,
`new_reward_account`, `initialization_check`, `execute_transfer`) and only
do the storage bookkeeping (id counter, index lists, history append, entry
lifetimes) by hand.
