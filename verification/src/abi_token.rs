//! ABI values (the `ethabi` token kinds), held as plain data.

use vstd::prelude::*;

verus! {

/// One ABI value, of the kinds that `ethabi` tokenizes, encodes and decodes.
/// Integers are held as `ethabi`'s `U256` holds them: four 64-bit limbs,
/// the least significant first.
#[derive(Debug)]
pub enum AbiToken {
    Address([u8; 20]),
    FixedBytes(Vec<u8>),
    Bytes(Vec<u8>),
    Int([u64; 4]),
    Uint([u64; 4]),
    Bool(bool),
    Str(String),
    FixedArray(Vec<AbiToken>),
    Array(Vec<AbiToken>),
    Tuple(Vec<AbiToken>),
}

/// The mathematical value of an `AbiToken`.
pub enum TokenValue {
    Address(Seq<u8>),
    FixedBytes(Seq<u8>),
    Bytes(Seq<u8>),
    Int(Seq<u64>),
    Uint(Seq<u64>),
    Bool(bool),
    Str(Seq<char>),
    FixedArray(Seq<TokenValue>),
    Array(Seq<TokenValue>),
    Tuple(Seq<TokenValue>),
}

impl AbiToken {
    pub open spec fn value(&self) -> TokenValue
        decreases self, 0nat,
    {
        match self {
            AbiToken::Address(a) => TokenValue::Address(a@),
            AbiToken::FixedBytes(b) => TokenValue::FixedBytes(b@),
            AbiToken::Bytes(b) => TokenValue::Bytes(b@),
            AbiToken::Int(n) => TokenValue::Int(n@),
            AbiToken::Uint(n) => TokenValue::Uint(n@),
            AbiToken::Bool(b) => TokenValue::Bool(*b),
            AbiToken::Str(s) => TokenValue::Str(s@),
            AbiToken::FixedArray(v) => TokenValue::FixedArray(token_values(v@)),
            AbiToken::Array(v) => TokenValue::Array(token_values(v@)),
            AbiToken::Tuple(v) => TokenValue::Tuple(token_values(v@)),
        }
    }
}

/// The values of a sequence of tokens.
pub open spec fn token_values(s: Seq<AbiToken>) -> Seq<TokenValue>
    decreases s, 1nat,
{
    if s.len() == 0 {
        Seq::empty()
    } else {
        token_values(s.drop_last()).push(s.last().value())
    }
}

/// `token_values` keeps the length and takes each token's value.
pub proof fn lemma_token_values(s: Seq<AbiToken>)
    ensures
        token_values(s).len() == s.len(),
        forall|i: int| 0 <= i < s.len() ==> #[trigger] token_values(s)[i] == s[i].value(),
    decreases s.len(),
{
    if s.len() > 0 {
        lemma_token_values(s.drop_last());
    }
}

/// Whether two byte sequences are equal.
pub fn same_bytes(x: &[u8], y: &[u8]) -> (r: bool)
    ensures
        r == (x@ == y@),
{
    if x.len() != y.len() {
        return false;
    }
    let n = x.len();
    for i in 0..n
        invariant
            n == x@.len(),
            n == y@.len(),
            forall|j: int| 0 <= j < i ==> x@[j] == y@[j],
    {
        if x[i] != y[i] {
            return false;
        }
    }
    assert(x@ =~= y@);
    true
}

/// Whether two 256-bit integers, by their limbs, are equal.
pub fn same_limbs(x: &[u64; 4], y: &[u64; 4]) -> (r: bool)
    ensures
        r == (x@ == y@),
{
    let r = x[0] == y[0] && x[1] == y[1] && x[2] == y[2] && x[3] == y[3];
    assert(r ==> x@ =~= y@);
    r
}

/// Whether two tokens are the same value (the `==` of `ethabi` tokens).
pub fn same_token(a: &AbiToken, b: &AbiToken) -> (r: bool)
    ensures
        r == (a.value() == b.value()),
    decreases a,
{
    match (a, b) {
        (AbiToken::Address(x), AbiToken::Address(y)) => same_bytes(x.as_slice(), y.as_slice()),
        (AbiToken::FixedBytes(x), AbiToken::FixedBytes(y)) => same_bytes(x.as_slice(), y.as_slice()),
        (AbiToken::Bytes(x), AbiToken::Bytes(y)) => same_bytes(x.as_slice(), y.as_slice()),
        (AbiToken::Int(x), AbiToken::Int(y)) => same_limbs(x, y),
        (AbiToken::Uint(x), AbiToken::Uint(y)) => same_limbs(x, y),
        (AbiToken::Bool(x), AbiToken::Bool(y)) => *x == *y,
        (AbiToken::Str(x), AbiToken::Str(y)) => *x == *y,
        (AbiToken::FixedArray(x), AbiToken::FixedArray(y)) => same_tokens(x, y),
        (AbiToken::Array(x), AbiToken::Array(y)) => same_tokens(x, y),
        (AbiToken::Tuple(x), AbiToken::Tuple(y)) => same_tokens(x, y),
        _ => false,
    }
}

/// Whether two token sequences are, position by position, the same values.
pub fn same_tokens(a: &Vec<AbiToken>, b: &Vec<AbiToken>) -> (r: bool)
    ensures
        r == (token_values(a@) == token_values(b@)),
    decreases a,
{
    proof {
        lemma_token_values(a@);
        lemma_token_values(b@);
    }
    if a.len() != b.len() {
        return false;
    }
    let n = a.len();
    for i in 0..n
        invariant
            n == a@.len(),
            n == b@.len(),
            token_values(a@).len() == n,
            token_values(b@).len() == n,
            forall|k: int| 0 <= k < n ==> #[trigger] token_values(a@)[k] == a@[k].value(),
            forall|k: int| 0 <= k < n ==> #[trigger] token_values(b@)[k] == b@[k].value(),
            forall|j: int| 0 <= j < i ==> token_values(a@)[j] == token_values(b@)[j],
    {
        proof {
            vstd::std_specs::vec::axiom_vec_index_decreases(*a, i as int);
        }
        if !same_token(&a[i], &b[i]) {
            assert(token_values(a@)[i as int] != token_values(b@)[i as int]);
            return false;
        }
    }
    assert(token_values(a@) =~= token_values(b@));
    true
}

} // verus!
