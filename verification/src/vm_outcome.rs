//! The decisions taken on what the test VM answers to a message: whether the
//! message was applied, whether it exited successfully, and what it returned.

use vstd::prelude::*;

verus! {

/// What the VM reports of an applied message: its exit code, its message
/// text, and the raw (CBOR) bytes it returned.
#[derive(Debug)]
pub struct MessageReceipt {
    pub exit_code: u32,
    pub message: String,
    pub return_data: Vec<u8>,
}

/// Why a message to the VM did not give a usable answer.
#[derive(Debug)]
pub enum VmError {
    /// The VM could not apply the message; the text describes why.
    Apply(String),
    /// The message was applied but exited with a non-zero code.
    Exit(u32, String),
    /// The returned bytes are not a CBOR byte string.
    DecodeReturn,
}

/// The mathematical value of a `VmError`.
pub enum VmFailure {
    Apply(Seq<char>),
    Exit(u32, Seq<char>),
    DecodeReturn,
}

impl View for VmError {
    type V = VmFailure;

    open spec fn view(&self) -> VmFailure {
        match self {
            VmError::Apply(s) => VmFailure::Apply(s@),
            VmError::Exit(c, m) => VmFailure::Exit(*c, m@),
            VmError::DecodeReturn => VmFailure::DecodeReturn,
        }
    }
}

/// A result holding bytes, taken by their view.
pub open spec fn vm_bytes_view(r: Result<Vec<u8>, VmError>) -> Result<Seq<u8>, VmFailure> {
    match r {
        Ok(b) => Ok(b@),
        Err(e) => Err(e@),
    }
}

/// An applied message's outcome, by its value.
pub open spec fn applied_view(applied: Result<MessageReceipt, String>) -> Result<(u32, Seq<char>, Seq<u8>), Seq<char>> {
    match applied {
        Ok(m) => Ok((m.exit_code, m.message@, m.return_data@)),
        Err(e) => Err(e@),
    }
}

/// What a message's outcome comes to: the VM's refusal, a failed exit, or the
/// returned bytes.
pub open spec fn message_result(applied: Result<(u32, Seq<char>, Seq<u8>), Seq<char>>) -> Result<Seq<u8>, VmFailure> {
    match applied {
        Err(e) => Err(VmFailure::Apply(e)),
        Ok((code, message, data)) => if code == 0 {
            Ok(data)
        } else {
            Err(VmFailure::Exit(code, message))
        },
    }
}

/// `fvm_shared`'s `ExitCode::is_success`: the code is 0.
#[verifier::external_body]
fn exit_code_is_success(code: u32) -> (r: bool)
    ensures
        r == (code == 0),
{
    fvm_shared::error::ExitCode::new(code).is_success()
}

/// The bytes of the CBOR byte string `raw`, as `fvm_ipld_encoding::from_slice`
/// reads it into `BytesDe`; `None` where it refuses `raw`.
pub uninterp spec fn cbor_byte_string(raw: Seq<u8>) -> Option<Seq<u8>>;

/// `fvm_ipld_encoding::from_slice::<BytesDe>`.
#[verifier::external_body]
fn decode_byte_string(raw: &[u8]) -> (r: Option<Vec<u8>>)
    ensures
        (match r {
            Some(b) => cbor_byte_string(raw@) == Some(b@),
            None => cbor_byte_string(raw@) is None,
        }),
{
    fvm_ipld_encoding::from_slice::<fvm_ipld_encoding::BytesDe>(raw).ok().map(|b| b.0)
}

/// Checks a message's outcome: a refused message or a non-zero exit code is
/// an error; otherwise the returned bytes are handed back.
pub fn check_message_result(applied: Result<MessageReceipt, String>) -> (r: Result<Vec<u8>, VmError>)
    ensures
        vm_bytes_view(r) == message_result(applied_view(applied)),
{
    match applied {
        Err(e) => Err(VmError::Apply(e)),
        Ok(m) => {
            if exit_code_is_success(m.exit_code) {
                Ok(m.return_data)
            } else {
                Err(VmError::Exit(m.exit_code, m.message))
            }
        },
    }
}

/// What invoking a contract comes to: the checked outcome, whose returned
/// bytes must be a CBOR byte string, the contract's own return data.
pub open spec fn invoke_result(applied: Result<(u32, Seq<char>, Seq<u8>), Seq<char>>) -> Result<Seq<u8>, VmFailure> {
    match message_result(applied) {
        Err(e) => Err(e),
        Ok(raw) => match cbor_byte_string(raw) {
            Some(b) => Ok(b),
            None => Err(VmFailure::DecodeReturn),
        },
    }
}

/// A contract's return data is only ever handed back from a message that
/// the VM applied and that exited with code 0.
pub proof fn lemma_invoke_ok_only_on_success(applied: Result<(u32, Seq<char>, Seq<u8>), Seq<char>>)
    ensures
        invoke_result(applied) is Ok ==> (applied matches Ok(m) && m.0 == 0
            && cbor_byte_string(m.2) == Some(invoke_result(applied)->Ok_0)),
{
}

/// The decisions of invoking a contract on the VM, taken on the outcome of
/// the `InvokeContract` message: the contract's return data, or why there is none.
pub fn vm_invoke_contract(applied: Result<MessageReceipt, String>) -> (r: Result<Vec<u8>, VmError>)
    ensures
        vm_bytes_view(r) == invoke_result(applied_view(applied)),
{
    let raw = check_message_result(applied)?;
    match decode_byte_string(raw.as_slice()) {
        Some(b) => Ok(b),
        None => Err(VmError::DecodeReturn),
    }
}

} // verus!
