# move_fuzzer

The logic of a fuzzer for Aptos Move contracts, verified with Verus.

- `src/mutator/types.rs`: inputs of the function under test.
- `src/runner/move_model.rs`, `stateless_runner/aptos_runner_utils.rs`: from a
  function's signature to inputs, from inputs to Move values, and from these to the
  arguments of a transaction.
- `src/runner/setup.rs`, `package.rs`, `transaction.rs`, `call.rs`: what it takes to
  bring a package onto a chain and to call it.
- `src/runner/stateless_runner`: calls one function again and again without
  committing anything; every call has the same sequence number.
- `src/runner/stateful_runner`: calls sequences of functions and commits each call. A
  setup starts over on a chain in its genesis state.
- `src/runner/aptos_helpers`: contract-specific inputs. The minting helper derives an
  attester key from the seed, registers it with the contract and signs payloads.
- `src/worker`: the course of call sequences, statistics and crash reports.
- `src/external`: calls of other crates, with the contracts that are taken on trust.

Modules named `laws` or ending in `_laws` state what holds of several functions
together.

The runners and the worker are state machines. They ask for a transaction, an account,
a number or a call, and are told what came of it. `app/` performs what they ask for: it holds
the executor, the package loader and the loop of a worker.
