//! Verified core of a harness that drives Solidity contracts on an FEVM test VM:
//! hex bytecode decoding, ABI description handling (function lookup, argument
//! tokenization, call encoding and return decoding), the comparison of produced
//! against expected outputs, and the decisions taken on VM message results.

pub mod hex_codec;
pub mod abi_token;
pub mod param_kind;
pub mod abi;
pub mod ethabi_bridge;
pub mod vm_outcome;
pub mod runner;
pub mod contract_tests;
pub mod assembler;
pub mod evm_examples;

