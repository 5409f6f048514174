//! The fixed inputs of the example runs: the mock Ethereum address's bytes,
//! the selector of the recursive contract's entry function, and the names
//! of an execution's outcomes.

use vstd::prelude::*;
use vstd::string::*;

use crate::hex_codec::{hex_decode, hex_decoded, first_non_hex_digit_from};

verus! {

/// The bytes from which the example runs build their mock Ethereum address:
/// 12 bytes of type padding, the ID-address marker `0xff`, 11 bytes of
/// padding for the inner `u64`, then the 8 big-endian bytes of the actor ID 1.
/// The address is the last 20 of these 32 bytes: `0xff`, 18 zeros, `0x01`.
pub open spec fn mock_eth_addr_parts() -> Seq<u8> {
    Seq::new(12, |i: int| 0u8) + seq![0xffu8] + Seq::new(11, |i: int| 0u8) + seq![0u8, 0u8, 0u8, 0u8, 0u8, 0u8, 0u8, 1u8]
}

/// The concatenated parts of the mock Ethereum address.
pub fn mock_eth_addr_bytes() -> (r: Vec<u8>)
    ensures
        r@ == mock_eth_addr_parts(),
        r@.len() == 32,
        r@.subrange(12, 32) == seq![0xffu8] + Seq::new(18, |i: int| 0u8) + seq![1u8],
{
    let mut bytes: Vec<u8> = Vec::new();
    for i in 0..12usize
        invariant
            bytes@ == Seq::new(i as nat, |j: int| 0u8),
    {
        bytes.push(0u8);
        assert(bytes@ =~= Seq::new((i + 1) as nat, |j: int| 0u8));
    }
    bytes.push(0xffu8);
    for i in 0..18usize
        invariant
            bytes@ == Seq::new(12, |j: int| 0u8) + seq![0xffu8] + Seq::new(i as nat, |j: int| 0u8),
    {
        bytes.push(0u8);
        assert(bytes@ =~= Seq::new(12, |j: int| 0u8) + seq![0xffu8] + Seq::new((i + 1) as nat, |j: int| 0u8));
    }
    bytes.push(1u8);
    assert(bytes@ =~= mock_eth_addr_parts());
    assert(bytes@.subrange(12, 32) =~= seq![0xffu8] + Seq::new(18, |i: int| 0u8) + seq![1u8]);
    bytes
}

/// The selector `e97dcb62` of the recursive example contract's entry
/// function, decoded from its hex text.
pub fn recursive_entry_selector() -> (r: Vec<u8>)
    ensures
        r@ == seq![0xe9u8, 0x7du8, 0xcbu8, 0x62u8],
{
    let text = "e97dcb62";
    proof {
        reveal_strlit("e97dcb62");
        assert(is_ascii(text));
        is_ascii_spec_bytes(text);
    }
    let data = text.as_bytes();
    let ghost d = data@;
    assert(d =~= seq![0x65u8, 0x39u8, 0x37u8, 0x64u8, 0x63u8, 0x62u8, 0x36u8, 0x32u8]);
    assert(first_non_hex_digit_from(d, 8) == 8);
    assert(first_non_hex_digit_from(d, 7) == 8);
    assert(first_non_hex_digit_from(d, 6) == 8);
    assert(first_non_hex_digit_from(d, 5) == 8);
    assert(first_non_hex_digit_from(d, 4) == 8);
    assert(first_non_hex_digit_from(d, 3) == 8);
    assert(first_non_hex_digit_from(d, 2) == 8);
    assert(first_non_hex_digit_from(d, 1) == 8);
    assert(first_non_hex_digit_from(d, 0) == 8);
    assert(hex_decoded(d) =~= seq![0xe9u8, 0x7du8, 0xcbu8, 0x62u8]);
    hex_decode(data).unwrap()
}

/// How an EVM execution ended.
#[derive(Debug, Clone, Copy, PartialEq, Eq, Structural)]
pub enum ExecutionOutcome {
    Return,
    Revert,
    Delete,
}

impl ExecutionOutcome {
    /// The name under which the examples report the outcome.
    pub fn label(&self) -> (s: &'static str)
        ensures
            s@ == (match self {
                ExecutionOutcome::Return => "Return"@,
                ExecutionOutcome::Revert => "Revert"@,
                ExecutionOutcome::Delete => "Delete"@,
            }),
    {
        match self {
            ExecutionOutcome::Return => "Return",
            ExecutionOutcome::Revert => "Revert",
            ExecutionOutcome::Delete => "Delete",
        }
    }
}

} // verus!
