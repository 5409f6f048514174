//! Contract code put together from assembled parts: the initialization code
//! followed by the body code, the body being assembled first.

use vstd::prelude::*;

verus! {

/// A contract's code: its initialization code followed by its body code.
pub fn contract_code(init_code: Vec<u8>, body_code: Vec<u8>) -> (r: Vec<u8>)
    ensures
        r@ == init_code@ + body_code@,
{
    let mut code = init_code;
    let mut body = body_code;
    code.append(&mut body);
    code
}

/// What the contract code is, given what assembling the body gave and, where
/// the body assembled, what assembling the initialization code gave: the
/// first failure, else the initialization code followed by the body code.
pub open spec fn assembled_contract<E>(body: Result<Vec<u8>, E>, init: Result<Vec<u8>, E>) -> Result<Seq<u8>, E> {
    match body {
        Err(e) => Err(e),
        Ok(b) => match init {
            Err(e) => Err(e),
            Ok(i) => Ok(i@ + b@),
        },
    }
}

/// The contract code, by its bytes.
pub open spec fn code_view<E>(r: Result<Vec<u8>, E>) -> Result<Seq<u8>, E> {
    match r {
        Ok(c) => Ok(c@),
        Err(e) => Err(e),
    }
}

/// Assembles the body with `assemble_body`, then, only where that succeeded,
/// the initialization code with `assemble_init`, and gives the contract code
/// that puts the initialization code first; the first failure otherwise.
/// (The assembler reads the files that the assembly's include and import
/// directives name, so the two steps are handed in by the caller.)
pub fn assemble_contract<E, FB, FI>(assemble_body: FB, assemble_init: FI) -> (r: Result<Vec<u8>, E>)
    where
        FB: FnOnce() -> Result<Vec<u8>, E>,
        FI: FnOnce() -> Result<Vec<u8>, E>,
    requires
        call_requires(assemble_body, ()),
        call_requires(assemble_init, ()),
    ensures
        exists|body: Result<Vec<u8>, E>| #[trigger] call_ensures(assemble_body, (), body) && match body {
            Err(e) => r == Err::<Vec<u8>, E>(e),
            Ok(b) => exists|init: Result<Vec<u8>, E>| #[trigger] call_ensures(assemble_init, (), init)
                && code_view(r) == assembled_contract(Ok::<Vec<u8>, E>(b), init),
        },
{
    let body = assemble_body();
    match body {
        Err(e) => Err(e),
        Ok(body_code) => {
            let init = assemble_init();
            let ghost body_bytes = body_code@;
            match init {
                Err(e) => Err(e),
                Ok(init_code) => {
                    let code = contract_code(init_code, body_code);
                    assert(code@ == init_code@ + body_bytes);
                    Ok(code)
                },
            }
        },
    }
}

} // verus!
