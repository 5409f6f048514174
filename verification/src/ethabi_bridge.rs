//! The calls into `ethabi`: reading an ABI description, reading a value from
//! its text, encoding a call and decoding results. What `ethabi` computes is
//! named here and not restated; each name is a function of its arguments.

use vstd::prelude::*;
use vstd::utf8::is_ascii_chars;

use ethabi::token::{LenientTokenizer, Tokenizer};
use ethabi::ethereum_types::{H160, U256};
use ethabi::{Function, Param, ParamType, StateMutability, Token};

use crate::abi::{AbiContract, AbiFunction, FunctionAbi, decode_in_range, json_types_readable};
use crate::abi_token::{AbiToken, TokenValue, token_values};
use crate::param_kind::{KindValue, ParamKind, enclosed, fits, pairwise_fit};

verus! {

/// `ethabi`'s tokens, carried through the conversions only.
#[verifier::external_type_specification]
#[verifier::external_body]
pub struct ExEthabiToken(ethabi::Token);

/// `ethabi`'s functions, carried through the conversions only.
#[verifier::external_type_specification]
#[verifier::external_body]
pub struct ExEthabiFunction(ethabi::Function);

/// `ethabi`'s parameter types, carried through the conversions only.
#[verifier::external_type_specification]
#[verifier::external_body]
pub struct ExEthabiParamType(ethabi::ParamType);

/// The functions that `ethabi::Contract::load` reads from the JSON text
/// `json`, in the order of `Contract::functions` (by name, then as listed);
/// `None` where `ethabi` refuses the text.
pub uninterp spec fn abi_description(json: Seq<u8>) -> Option<Seq<FunctionAbi>>;

/// The value that `ethabi`'s `LenientTokenizer` reads from `text` for the
/// parameter type `kind`; `None` where the text is refused.
pub uninterp spec fn lenient_token(kind: KindValue, text: Seq<char>) -> Option<TokenValue>;

/// The call data that `ethabi::Function::encode_input` makes for `function`
/// and the arguments `args`: selector, then the encoded arguments; `None`
/// where it refuses them.
pub uninterp spec fn encoded_call(function: FunctionAbi, args: Seq<TokenValue>) -> Option<Seq<u8>>;

/// The results that `ethabi::Function::decode_output` reads from `data` for
/// `function`; `None` where it refuses the data.
pub uninterp spec fn decoded_output(function: FunctionAbi, data: Seq<u8>) -> Option<Seq<TokenValue>>;

/// An optional contract, by its value.
pub open spec fn contract_option_view(r: Option<AbiContract>) -> Option<Seq<FunctionAbi>> {
    match r {
        Some(c) => Some(c@),
        None => None,
    }
}

/// An optional token, by its value.
pub open spec fn token_option_view(r: Option<AbiToken>) -> Option<TokenValue> {
    match r {
        Some(t) => Some(t.value()),
        None => None,
    }
}

/// Optional bytes, by their view.
pub open spec fn bytes_option_view(r: Option<Vec<u8>>) -> Option<Seq<u8>> {
    match r {
        Some(b) => Some(b@),
        None => None,
    }
}

/// Optional tokens, by their values.
pub open spec fn tokens_option_view(r: Option<Vec<AbiToken>>) -> Option<Seq<TokenValue>> {
    match r {
        Some(ts) => Some(token_values(ts@)),
        None => None,
    }
}

/// An `ethabi` token as an `AbiToken`, kind for kind: the kinds that hold
/// tokens here, the others in `scalar_from_ethabi`.
#[verifier::external_body]
fn token_from_ethabi(t: &Token) -> AbiToken {
    match t {
        Token::FixedArray(v) => AbiToken::FixedArray(v.iter().map(token_from_ethabi).collect()),
        Token::Array(v) => AbiToken::Array(v.iter().map(token_from_ethabi).collect()),
        Token::Tuple(v) => AbiToken::Tuple(v.iter().map(token_from_ethabi).collect()),
        _ => scalar_from_ethabi(t),
    }
}

/// An `ethabi` token that holds no tokens as an `AbiToken`, kind for kind.
#[verifier::external_body]
fn scalar_from_ethabi(t: &Token) -> AbiToken {
    match t {
        Token::Address(a) => AbiToken::Address(a.0),
        Token::FixedBytes(b) => AbiToken::FixedBytes(b.clone()),
        Token::Bytes(b) => AbiToken::Bytes(b.clone()),
        Token::Int(n) => AbiToken::Int(n.0),
        Token::Uint(n) => AbiToken::Uint(n.0),
        Token::Bool(b) => AbiToken::Bool(*b),
        Token::String(s) => AbiToken::Str(s.clone()),
        Token::FixedArray(_) | Token::Array(_) | Token::Tuple(_) => token_from_ethabi(t),
    }
}

/// An `AbiToken` as an `ethabi` token, kind for kind: the kinds that hold
/// tokens here, the others in `scalar_to_ethabi`.
#[verifier::external_body]
fn token_to_ethabi(t: &AbiToken) -> Token {
    match t {
        AbiToken::FixedArray(v) => Token::FixedArray(v.iter().map(token_to_ethabi).collect()),
        AbiToken::Array(v) => Token::Array(v.iter().map(token_to_ethabi).collect()),
        AbiToken::Tuple(v) => Token::Tuple(v.iter().map(token_to_ethabi).collect()),
        _ => scalar_to_ethabi(t),
    }
}

/// An `AbiToken` that holds no tokens as an `ethabi` token, kind for kind.
#[verifier::external_body]
fn scalar_to_ethabi(t: &AbiToken) -> Token {
    match t {
        AbiToken::Address(a) => Token::Address(H160(*a)),
        AbiToken::FixedBytes(b) => Token::FixedBytes(b.clone()),
        AbiToken::Bytes(b) => Token::Bytes(b.clone()),
        AbiToken::Int(n) => Token::Int(U256(*n)),
        AbiToken::Uint(n) => Token::Uint(U256(*n)),
        AbiToken::Bool(b) => Token::Bool(*b),
        AbiToken::Str(s) => Token::String(s.clone()),
        AbiToken::FixedArray(_) | AbiToken::Array(_) | AbiToken::Tuple(_) => token_to_ethabi(t),
    }
}

/// An `ethabi` parameter type as a `ParamKind`, kind for kind.
#[verifier::external_body]
fn kind_from_ethabi(k: &ParamType) -> ParamKind {
    match k {
        ParamType::Address => ParamKind::Address,
        ParamType::Bytes => ParamKind::Bytes,
        ParamType::Int(n) => ParamKind::Int(*n),
        ParamType::Uint(n) => ParamKind::Uint(*n),
        ParamType::Bool => ParamKind::Bool,
        ParamType::String => ParamKind::Str,
        ParamType::Array(inner) => ParamKind::Array(Box::new(kind_from_ethabi(inner))),
        ParamType::FixedBytes(n) => ParamKind::FixedBytes(*n),
        ParamType::FixedArray(inner, n) => ParamKind::FixedArray(Box::new(kind_from_ethabi(inner)), *n),
        ParamType::Tuple(ks) => ParamKind::Tuple(ks.iter().map(kind_from_ethabi).collect()),
    }
}

/// A `ParamKind` as an `ethabi` parameter type, kind for kind.
#[verifier::external_body]
fn kind_to_ethabi(k: &ParamKind) -> ParamType {
    match k {
        ParamKind::Address => ParamType::Address,
        ParamKind::Bytes => ParamType::Bytes,
        ParamKind::Int(n) => ParamType::Int(*n),
        ParamKind::Uint(n) => ParamType::Uint(*n),
        ParamKind::Bool => ParamType::Bool,
        ParamKind::Str => ParamType::String,
        ParamKind::Array(inner) => ParamType::Array(Box::new(kind_to_ethabi(inner))),
        ParamKind::FixedBytes(n) => ParamType::FixedBytes(*n),
        ParamKind::FixedArray(inner, n) => ParamType::FixedArray(Box::new(kind_to_ethabi(inner)), *n),
        ParamKind::Tuple(ks) => ParamType::Tuple(ks.iter().map(kind_to_ethabi).collect()),
    }
}

/// An `AbiFunction` as an `ethabi` function with unnamed parameters of its types.
#[verifier::external_body]
#[allow(deprecated)]
fn function_to_ethabi(f: &AbiFunction) -> Function {
    let param = |k: &ParamKind| Param { name: String::new(), kind: kind_to_ethabi(k), internal_type: None };
    Function {
        name: f.name.clone(),
        inputs: f.inputs.iter().map(param).collect(),
        outputs: f.outputs.iter().map(param).collect(),
        constant: None,
        state_mutability: StateMutability::NonPayable,
    }
}

/// `ethabi::Contract::load` on the JSON text `json`; its functions as
/// `AbiFunction`s. It is only handed texts whose type names its reader of
/// type names takes without panicking (`json_types_readable`).
#[verifier::external_body]
pub(crate) fn load_abi_description(json: &[u8]) -> (r: Option<AbiContract>)
    requires
        json_types_readable(json@),
    ensures
        contract_option_view(r) == abi_description(json@),
{
    let contract = ethabi::Contract::load(json).ok()?;
    let kinds = |ps: &Vec<Param>| ps.iter().map(|p| kind_from_ethabi(&p.kind)).collect();
    let function = |f: &Function| AbiFunction { name: f.name.clone(), inputs: kinds(&f.inputs), outputs: kinds(&f.outputs) };
    Some(AbiContract { functions: contract.functions.values().flatten().map(function).collect() })
}

/// `LenientTokenizer::tokenize` on `text`, for the parameter type `kind`.
/// For `string` the value is the text itself; for `bool` it is true for
/// `true` or `1`, false for `false` or `0`, and any other text is refused.
/// The value read fits its type: arrays are read entry by entry for their
/// entry type, and a tuple's entries in order for its entry types, with no
/// entry beyond the last type (`tokenize_array`, `tokenize_struct`).
/// Texts of arrays and tuples are refused unless enclosed in brackets or
/// parentheses (`enclosed`); enclosed ones are cut at character counts taken
/// as byte offsets, so they are only handed over where they are ASCII.
#[verifier::external_body]
pub(crate) fn tokenize_lenient(kind: &ParamKind, text: &str) -> (r: Option<AbiToken>)
    requires
        !enclosed(kind.value(), text@) || is_ascii_chars(text@),
    ensures
        token_option_view(r) == lenient_token(kind.value(), text@),
        r matches Some(t) ==> fits(t.value(), kind.value()),
        kind.value() == KindValue::Str ==> token_option_view(r) == Some(TokenValue::Str(text@)),
        kind.value() == KindValue::Bool ==> token_option_view(r) == (if text@ == "true"@ || text@ == "1"@ {
            Some(TokenValue::Bool(true))
        } else if text@ == "false"@ || text@ == "0"@ {
            Some(TokenValue::Bool(false))
        } else {
            None
        }),
{
    let token = LenientTokenizer::tokenize(&kind_to_ethabi(kind), text).ok()?;
    Some(token_from_ethabi(&token))
}

/// `Function::encode_input`. It refuses arguments whose number differs from
/// the number of parameters (`Token::types_check`), and the call data it
/// makes starts with the 4-byte selector. Its type check indexes a tuple
/// type by the entries of the tuple value checked against it, so it is only
/// handed values with no more entries than their tuple types (`pairwise_fit`).
#[verifier::external_body]
pub(crate) fn encode_input(function: &AbiFunction, args: &Vec<AbiToken>) -> (r: Option<Vec<u8>>)
    requires
        pairwise_fit(token_values(args@), function@.inputs),
    ensures
        bytes_option_view(r) == encoded_call(function@, token_values(args@)),
        r matches Some(b) ==> b@.len() >= 4 && args@.len() == function.inputs@.len(),
{
    let f = function_to_ethabi(function);
    f.encode_input(&args.iter().map(token_to_ethabi).collect::<Vec<Token>>()).ok()
}

/// `Function::decode_output`. What it gives holds one value per result type.
/// Its offsets stay within the data plus one word, on a 64-bit `usize`,
/// except where it adds a fixed-size byte string's length to one
/// (`take_bytes`); so it is only handed types and data for which that sum
/// cannot overflow (`decode_in_range`).
#[verifier::external_body]
pub(crate) fn decode_output(function: &AbiFunction, data: &[u8]) -> (r: Option<Vec<AbiToken>>)
    requires
        decode_in_range(function@.outputs, data@.len()),
    ensures
        tokens_option_view(r) == decoded_output(function@, data@),
        r matches Some(ts) ==> ts@.len() == function.outputs@.len(),
{
    let f = function_to_ethabi(function);
    let tokens = f.decode_output(data).ok()?;
    Some(tokens.iter().map(token_from_ethabi).collect())
}

} // verus!
