# fevm_tests

A harness that runs Solidity contract tests on the FEVM test VM. The tests of
a contract are a JSON file naming the contract's hex bytecode, its ABI
description, and for each test a function (by name or signature), argument
texts and expected result texts.

`src/` is the verified library, proved with Verus:

- `hex_codec`: decoding the contract's hex bytecode (`hex::decode`).
- `abi_token`: ABI values as plain data, and their equality.
- `param_kind`: ABI parameter types as plain data, their canonical names, and
  the check that values fit their tuple types.
- `abi`: the ABI description; finding a function by name or signature;
  reading argument and result texts as values; encoding calls; decoding results.
- `ethabi_bridge`: the calls into `ethabi`, whose results are named, not restated.
- `runner`: a deployed contract's ABI and the cache of looked-up functions;
  the steps of an invocation.
- `contract_tests`: comparing produced with expected results, verdicts, counts.
- `vm_outcome`: the decisions on what the VM answers to a message.
- `assembler`: contract code from assembled parts (the body assembled first,
  the initialization code placed first); `app/` runs `etk_asm`, which reads
  the files that the assembly names.
- `evm_examples`: the fixed inputs of the example runs.

`app/` is the program: reading the test files, deploying and invoking
contracts on the VM, and printing. `tests/` exercises the library.
