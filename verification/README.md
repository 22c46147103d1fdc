# sudostake

A verified model of the SudoStake protocol on NEAR: a vault that holds its
owner's staked NEAR and lets the owner borrow fungible tokens against it, the
factory that mints vaults, and a staking pool used to exercise them.

- `src/` is the library, checked by Verus. Each contract method is a function
  from the vault state and the call's environment (caller, deposit, clock,
  balances) to the next state and the promises to schedule; its `ensures`
  states that result exactly, and a refused call leaves the state unchanged.
  `src/laws.rs` holds the properties that span several calls.
- `app/` wires the library into NEAR contracts: it reads the host
  environment, runs the library function, stores the state, turns the
  returned promises into real ones and emits the event logs.
- `tests/` runs the library on concrete scenarios.
