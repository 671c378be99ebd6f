# pips

Mesh Improvement Proposals (PIPs): proposals that token holders make and vote on with their stake.
What the community accepts, the governance committee ratifies or rejects; what is ratified is
executed after an enactment period.

The library does no input or output. A call is given what the runtime answered (who called, whether
a deposit could be reserved), and leaves what the runtime is to do (release a deposit, pay a
beneficiary, report an event) as effects, to be taken out afterwards.

- `src/types.rs`: the values that calls take and give.
- `src/store.rs`: the stored state; `src/pips.rs`: the calls on it.
- `src/snapshot.rs`: the whole state as plain values, to be kept elsewhere and taken up again.
- `src/model.rs`: the state as a mathematical value, and what each call makes of it. The contracts
  of the calls speak of this model.
- `src/table.rs`, `src/ledger.rs`, `src/tally.rs`: the parts that the state is made of.
- `src/hashing.rs`: the hash under which large proposals are reported. Its result is taken on trust.
- `src/soundness.rs`: every call keeps the invariant of the state.
- `src/history.rs`, `src/laws.rs`, `src/schedule.rs`, `src/runs.rs`: what holds of all calls
  together, and of any number of calls made one after the other.
- `app/`: the module as part of a FRAME runtime, with its state in the storage of the runtime.
- `tests/`: the library in use.
