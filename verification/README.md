# stellar_defi_vault

A staking pool for Stellar, written in Verus: users stake a token and get shares of what is
deposited, and rewards accrue ledger by ledger or epoch by epoch.

- `src/` is the pool itself. `vault::VaultContract` holds the entry points. Each one takes an
  `env::Env`, the pool as one call sees it, and hands back the pool as it is afterwards together
  with what the call makes happen outside (transfers, events, receipts), or an error.
  What a call does is said in its contract by a function on `env::State`, the mathematical view of
  an `Env`.
- `src/laws/` states what holds of the pool whatever is done with it: the books balance, limits
  and records are kept, a stake costs nobody else, nothing is paid twice, nobody acts without
  consent.
- `app/` is the Soroban contract around the library: storage, authorisation, token transfers and
  events.
- `tests/` runs the library.

Two things it does not do. A claim publishes no alert that the reward pool should be refilled:
there is no such event. And `app/` builds natively but not for wasm, since `address::strkey` goes
by a conversion that soroban-sdk has on other targets only.

One thing is taken on trust: that the text of an address, which settles who of two equal stakers
ranks first, depends on nothing but the address (`address::strkey`).
