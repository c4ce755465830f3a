# nexus_move

A Move execution and packaging layer whose logic is proved with Verus.

## Layout

- `src/` is the verified library. Every executable function carries a `requires` /
  `ensures` contract that Verus proves.
  - `types`, `text`: account addresses (hex parsing and display), string and byte helpers.
  - `bytecode`: the structural checks on a bundle of modules before it is published.
  - `write_set`: a write set kept sorted by (account, key), with its lookup and insert laws.
  - `state`, `resources`, `session`: reads through a host-provided `StateReader`, pending
    resource writes on top of them, and an execution session that charges gas for them.
  - `gas`, `move_gas_meter`: the I/O gas schedule and the per-instruction meter.
  - `publisher`, `executor`: contract addresses, the publish decision and its writes, and the
    planning backend with the executor that dispatches to a backend.
  - `vm_backend`: the decisions of the interpreter-backed VM (call targets, charged gas,
    upgrade policy, the reads and writes of a published module).
  - `abi`: the ABI hash of a module and of a package, independent of private functions and
    of definition order.
  - `stdlib`: the framework module table and the string and hash natives.
  - `package`: `Move.toml` inspection, named addresses, build plans, package metadata and the
    artifact manifest.
- `tests/` exercises the library through its public interface.
- `app/` holds what stays outside the proofs: the Move interpreter and compiler glue, file
  and process I/O, serde encodings, and `Display` impls.

Hashes come from the `blake3`, `sha2` and `sha3` crates through small trusted wrappers whose
contracts name their results; everything built on them is proved.
