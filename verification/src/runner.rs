//! The state of a deployed contract under test: its ABI description and a
//! cache of the functions looked up in it, with the steps of invoking a
//! function and of checking a test's expected outputs.

use vstd::prelude::*;
use vstd::string::*;

use crate::abi::{
    AbiContract, AbiError, AbiFailure, AbiFunction, FunctionAbi, abi_decode, abi_encode, abi_load_contract,
    abi_load_function, abi_tokenize_function_inputs, abi_tokenize_function_outputs, copy_function, decode_result,
    encode_result, json_types_readable, load_function_result, str_views, tokenized,
};
use crate::abi_token::{AbiToken, TokenValue, token_values};
use crate::param_kind::KindValue;
use crate::ethabi_bridge::abi_description;
use crate::hex_codec::{HexError, decode_bytecode_hex, hex_decode_result};
use crate::vm_outcome::{VmError, VmFailure};

verus! {

/// Why a step of a contract test could not be taken.
#[derive(Debug)]
pub enum RunnerError {
    /// The contract's bytecode text is not hex.
    BytecodeHex(HexError),
    /// The contract's ABI description could not be read.
    LoadAbi(AbiError),
    /// The requested function could not be found (so it was not cached).
    FunctionLookup(AbiError),
    /// Tokenizing, encoding or decoding failed.
    Abi(AbiError),
    /// The VM gave no usable answer to the invocation.
    Invoke(VmError),
}

/// The mathematical value of a `RunnerError`.
pub enum RunnerFailure {
    BytecodeHex(HexError),
    LoadAbi(AbiFailure),
    FunctionLookup(AbiFailure),
    Abi(AbiFailure),
    Invoke(VmFailure),
}

impl View for RunnerError {
    type V = RunnerFailure;

    open spec fn view(&self) -> RunnerFailure {
        match self {
            RunnerError::BytecodeHex(e) => RunnerFailure::BytecodeHex(*e),
            RunnerError::LoadAbi(e) => RunnerFailure::LoadAbi(e@),
            RunnerError::FunctionLookup(e) => RunnerFailure::FunctionLookup(e@),
            RunnerError::Abi(e) => RunnerFailure::Abi(e@),
            RunnerError::Invoke(e) => RunnerFailure::Invoke(e@),
        }
    }
}

/// A function lookup's outcome as the runner reports it.
pub open spec fn runner_lookup(fs: Seq<FunctionAbi>, request: Seq<char>) -> Result<FunctionAbi, RunnerFailure> {
    match load_function_result(fs, request) {
        Ok(f) => Ok(f),
        Err(e) => Err(RunnerFailure::FunctionLookup(e)),
    }
}

/// A result holding tokens, taken by their values.
pub open spec fn runner_tokens_view(r: Result<Vec<AbiToken>, RunnerError>) -> Result<Seq<TokenValue>, RunnerFailure> {
    match r {
        Ok(ts) => Ok(token_values(ts@)),
        Err(e) => Err(e@),
    }
}

/// A function lookup through the runner, taken by its value.
pub open spec fn runner_function_view(r: Result<AbiFunction, RunnerError>) -> Result<FunctionAbi, RunnerFailure> {
    match r {
        Ok(f) => Ok(f@),
        Err(e) => Err(e@),
    }
}

/// One cached lookup: the request and the function it designates.
struct CachedFunction {
    request: String,
    function: AbiFunction,
}

/// A deployed contract's ABI description and the functions already looked
/// up in it, each under the text of the request that designated it.
pub struct ContractTestRunner {
    contract_abi: AbiContract,
    functions_map: Vec<CachedFunction>,
}

impl ContractTestRunner {
    /// Every cached function is what its request designates in the ABI
    /// description, and no request is cached twice.
    #[verifier::type_invariant]
    closed spec fn cache_is_sound(self) -> bool {
        &&& forall|i: int|
            0 <= i < self.functions_map@.len() ==> load_function_result(
                self.contract_abi@,
                #[trigger] self.functions_map@[i].request@,
            ) == Ok::<FunctionAbi, AbiFailure>(self.functions_map@[i].function@)
        &&& forall|i: int, j: int|
            0 <= i < j < self.functions_map@.len() ==> #[trigger] self.functions_map@[i].request@
                != #[trigger] self.functions_map@[j].request@
    }

    /// The contract's ABI description.
    pub closed spec fn abi(&self) -> Seq<FunctionAbi> {
        self.contract_abi@
    }

    /// The requests whose function is cached.
    pub closed spec fn cached_requests(&self) -> Set<Seq<char>> {
        Set::new(|q: Seq<char>| exists|i: int| 0 <= i < self.functions_map@.len() && self.functions_map@[i].request@ == q)
    }

    /// The runner for a contract whose ABI description is the JSON text
    /// `abi_json`, with nothing cached yet.
    pub fn new(abi_json: &[u8]) -> (r: Result<Self, RunnerError>)
        ensures
            !json_types_readable(abi_json@) ==> r matches Err(RunnerError::LoadAbi(AbiError::LoadContract)),
            json_types_readable(abi_json@) ==> (match abi_description(abi_json@) {
                Some(fs) => r matches Ok(runner) && runner.abi() == fs && runner.cached_requests() == Set::<Seq<char>>::empty(),
                None => r matches Err(RunnerError::LoadAbi(AbiError::LoadContract)),
            }),
    {
        match abi_load_contract(abi_json) {
            Ok(contract_abi) => {
                let runner = ContractTestRunner { contract_abi, functions_map: Vec::new() };
                assert(runner.cached_requests() =~= Set::<Seq<char>>::empty());
                Ok(runner)
            },
            Err(e) => Err(RunnerError::LoadAbi(e)),
        }
    }

    /// The bytecode to deploy, read from its hex text.
    pub fn decode_bytecode(bytecode_text: &str) -> (r: Result<Vec<u8>, RunnerError>)
        ensures
            (match hex_decode_result(bytecode_text.spec_bytes()) {
                Ok(b) => r matches Ok(v) && v@ == b,
                Err(e) => r matches Err(RunnerError::BytecodeHex(x)) && x == e,
            }),
    {
        match decode_bytecode_hex(bytecode_text) {
            Ok(b) => Ok(b),
            Err(e) => Err(RunnerError::BytecodeHex(e)),
        }
    }

    /// The function that `function_name_or_signature` designates, from the
    /// cache when it was looked up before, else looked up and cached. The
    /// cache never changes what a lookup gives: it is always the function
    /// that the request designates in the ABI description.
    fn cached_function(&mut self, function_name_or_signature: &str) -> (r: Result<AbiFunction, RunnerError>)
        ensures
            runner_function_view(r) == runner_lookup(old(self).abi(), function_name_or_signature@),
            final(self).abi() == old(self).abi(),
            r is Ok ==> final(self).cached_requests() == old(self).cached_requests().insert(function_name_or_signature@),
            r is Err ==> final(self).cached_requests() == old(self).cached_requests(),
    {
        proof {
            use_type_invariant(&*self);
        }
        let request = function_name_or_signature.to_owned();
        let n = self.functions_map.len();
        for i in 0..n
            invariant
                n == self.functions_map@.len(),
                request@ == function_name_or_signature@,
                forall|j: int| 0 <= j < i ==> #[trigger] self.functions_map@[j].request@ != request@,
        {
            if self.functions_map[i].request == request {
                proof {
                    use_type_invariant(&*self);
                    assert(self.cached_requests().contains(request@));
                    assert(self.cached_requests().insert(request@) =~= self.cached_requests());
                }
                return Ok(copy_function(&self.functions_map[i].function));
            }
        }
        match abi_load_function(&self.contract_abi, function_name_or_signature) {
            Ok(function) => {
                let cached = copy_function(&function);
                let ghost before = *self;
                let mut map: Vec<CachedFunction> = Vec::new();
                std::mem::swap(&mut map, &mut self.functions_map);
                map.push(CachedFunction { request, function: cached });
                proof {
                    let old_len = before.functions_map@.len() as int;
                    assert forall|i: int, j: int| 0 <= i < j < map@.len() implies #[trigger] map@[i].request@
                        != #[trigger] map@[j].request@ by {
                        assert(map@[i] == before.functions_map@[i]);
                        if j < old_len {
                            assert(map@[j] == before.functions_map@[j]);
                        } else {
                            assert(map@[j].request@ == function_name_or_signature@);
                            assert(before.functions_map@[i].request@ != function_name_or_signature@);
                        }
                    }
                }
                self.functions_map = map;
                proof {
                    let q0 = function_name_or_signature@;
                    let old_len = before.functions_map@.len() as int;
                    assert(self.functions_map@.len() == old_len + 1);
                    assert forall|q: Seq<char>|
                        self.cached_requests().contains(q) <==> before.cached_requests().insert(q0).contains(q) by {
                        if before.cached_requests().contains(q) {
                            let i = choose|i: int| 0 <= i < before.functions_map@.len() && before.functions_map@[i].request@ == q;
                            assert(self.functions_map@[i] == before.functions_map@[i]);
                        }
                        if q == q0 {
                            assert(self.functions_map@[old_len].request@ == q);
                        }
                        if self.cached_requests().contains(q) {
                            let i = choose|i: int| 0 <= i < self.functions_map@.len() && self.functions_map@[i].request@ == q;
                            if i < old_len {
                                assert(self.functions_map@[i] == before.functions_map@[i]);
                            }
                        }
                    }
                    assert(self.cached_requests() =~= before.cached_requests().insert(q0));
                }
                Ok(function)
            },
            Err(e) => Err(RunnerError::FunctionLookup(e)),
        }
    }

    /// Looks up the function that `function_name_or_signature` designates
    /// (from the cache, else in the ABI description, caching it) and gives
    /// what `operate_f` gives on it. Where the lookup fails, its error is
    /// given and `operate_f` is not called.
    pub fn operate_on_function<T, F>(&mut self, function_name_or_signature: &str, operate_f: F) -> (r: Result<T, RunnerError>)
        where
            F: FnOnce(&AbiFunction) -> Result<T, RunnerError>,
        requires
            forall|f: &AbiFunction| #[trigger] call_requires(operate_f, (f,)),
        ensures
            final(self).abi() == old(self).abi(),
            runner_lookup(old(self).abi(), function_name_or_signature@) is Ok ==> final(self).cached_requests()
                == old(self).cached_requests().insert(function_name_or_signature@),
            runner_lookup(old(self).abi(), function_name_or_signature@) is Err ==> final(self).cached_requests()
                == old(self).cached_requests(),
            (match runner_lookup(old(self).abi(), function_name_or_signature@) {
                Err(e) => r matches Err(x) && x@ == e,
                Ok(fv) => exists|f: &AbiFunction| f@ == fv && #[trigger] call_ensures(operate_f, (f,), r),
            }),
    {
        let function = self.cached_function(function_name_or_signature)?;
        operate_f(&function)
    }

    /// The first step of invoking a function: the function that
    /// `function_name_or_signature` designates, and the call data for it with
    /// the argument texts `inputs`. The VM is then sent this call data.
    pub fn prepare_invocation(&mut self, function_name_or_signature: &str, inputs: &Vec<&str>) -> (r: Result<(AbiFunction, Vec<u8>), RunnerError>)
        ensures
            final(self).abi() == old(self).abi(),
            runner_lookup(old(self).abi(), function_name_or_signature@) is Ok ==> final(self).cached_requests()
                == old(self).cached_requests().insert(function_name_or_signature@),
            runner_lookup(old(self).abi(), function_name_or_signature@) is Err ==> final(self).cached_requests()
                == old(self).cached_requests(),
            (match runner_lookup(old(self).abi(), function_name_or_signature@) {
                Err(e) => r matches Err(x) && x@ == e,
                Ok(f) => match encode_result(f, str_views(inputs@)) {
                    Ok(b) => r matches Ok(p) && p.0@ == f && p.1@ == b,
                    Err(e) => r matches Err(RunnerError::Abi(x)) && x@ == e,
                },
            }),
    {
        self.operate_on_function(
            function_name_or_signature,
            (|function: &AbiFunction| -> (r: Result<(AbiFunction, Vec<u8>), RunnerError>)
                ensures
                    is_prepared_call(r, function@, str_views(inputs@)),
                {
                    match abi_encode(function, inputs) {
                        Ok(params) => Ok((copy_function(function), params)),
                        Err(e) => Err(RunnerError::Abi(e)),
                    }
                }),
        )
    }

    /// The last step of invoking `function`: its results, read from the
    /// contract's return data that the VM answered with.
    pub fn finish_invocation(function: &AbiFunction, returned: Result<Vec<u8>, VmError>) -> (r: Result<Vec<AbiToken>, RunnerError>)
        ensures
            (match returned {
                Err(e) => r matches Err(RunnerError::Invoke(x)) && x@ == e@,
                Ok(data) => match decode_result(function@, data@) {
                    Ok(vs) => r matches Ok(ts) && token_values(ts@) == vs,
                    Err(e) => r matches Err(RunnerError::Abi(x)) && x@ == e,
                },
            }),
    {
        match returned {
            Err(e) => Err(RunnerError::Invoke(e)),
            Ok(data) => match abi_decode(function, &data) {
                Ok(ts) => Ok(ts),
                Err(e) => Err(RunnerError::Abi(e)),
            },
        }
    }

    /// Reads argument texts as values of the parameter types of the function
    /// that `function_name_or_signature` designates.
    pub fn _tokenize_abi_function_inputs(&mut self, function_name_or_signature: &str, inputs: &Vec<&str>) -> (r: Result<Vec<AbiToken>, RunnerError>)
        ensures
            final(self).abi() == old(self).abi(),
            runner_lookup(old(self).abi(), function_name_or_signature@) is Ok ==> final(self).cached_requests()
                == old(self).cached_requests().insert(function_name_or_signature@),
            runner_lookup(old(self).abi(), function_name_or_signature@) is Err ==> final(self).cached_requests()
                == old(self).cached_requests(),
            runner_tokens_view(r) == (match runner_lookup(old(self).abi(), function_name_or_signature@) {
                Err(e) => Err(e),
                Ok(f) => match tokenized(f.inputs, str_views(inputs@)) {
                    Some(vs) => Ok(vs),
                    None => Err(RunnerFailure::Abi(AbiFailure::TokenizeInputs)),
                },
            }),
    {
        self.operate_on_function(
            function_name_or_signature,
            (|function: &AbiFunction| -> (r: Result<Vec<AbiToken>, RunnerError>)
                ensures
                    is_input_reading(r, function@, str_views(inputs@)),
                {
                    match abi_tokenize_function_inputs(function, inputs) {
                        Ok(ts) => Ok(ts),
                        Err(e) => Err(RunnerError::Abi(e)),
                    }
                }),
        )
    }

    /// Reads expected result texts as values of the result types of the
    /// function that `function_name_or_signature` designates.
    pub fn tokenize_abi_function_outputs(&mut self, function_name_or_signature: &str, outputs: &Vec<&str>) -> (r: Result<Vec<AbiToken>, RunnerError>)
        ensures
            final(self).abi() == old(self).abi(),
            runner_lookup(old(self).abi(), function_name_or_signature@) is Ok ==> final(self).cached_requests()
                == old(self).cached_requests().insert(function_name_or_signature@),
            runner_lookup(old(self).abi(), function_name_or_signature@) is Err ==> final(self).cached_requests()
                == old(self).cached_requests(),
            runner_tokens_view(r) == expected_outputs(old(self).abi(), function_name_or_signature@, str_views(outputs@)),
    {
        self.operate_on_function(
            function_name_or_signature,
            (|function: &AbiFunction| -> (r: Result<Vec<AbiToken>, RunnerError>)
                ensures
                    is_output_reading(r, function@, str_views(outputs@)),
                {
                    match abi_tokenize_function_outputs(function, outputs) {
                        Ok(ts) => Ok(ts),
                        Err(e) => Err(RunnerError::Abi(e)),
                    }
                }),
        )
    }
}

/// Whether `r` holds the function `f` and the call data for it with the
/// argument texts `texts`, or the runner's error where encoding fails.
pub open spec fn is_prepared_call(r: Result<(AbiFunction, Vec<u8>), RunnerError>, f: FunctionAbi, texts: Seq<Seq<char>>) -> bool {
    match encode_result(f, texts) {
        Ok(b) => r matches Ok(p) && p.0@ == f && p.1@ == b,
        Err(e) => r matches Err(RunnerError::Abi(x)) && x@ == e,
    }
}

/// Whether `r` holds the values read from `texts` for the types `kinds`, or
/// the runner's error `refused` where one is refused.
pub open spec fn is_runner_reading(r: Result<Vec<AbiToken>, RunnerError>, kinds: Seq<KindValue>, texts: Seq<Seq<char>>, refused: AbiFailure) -> bool {
    runner_tokens_view(r) == match tokenized(kinds, texts) {
        Some(vs) => Ok(vs),
        None => Err(RunnerFailure::Abi(refused)),
    }
}

/// Whether `r` holds the argument values read from `texts` for `f`.
pub open spec fn is_input_reading(r: Result<Vec<AbiToken>, RunnerError>, f: FunctionAbi, texts: Seq<Seq<char>>) -> bool {
    is_runner_reading(r, f.inputs, texts, AbiFailure::TokenizeInputs)
}

/// Whether `r` holds the result values read from `texts` for `f`.
pub open spec fn is_output_reading(r: Result<Vec<AbiToken>, RunnerError>, f: FunctionAbi, texts: Seq<Seq<char>>) -> bool {
    is_runner_reading(r, f.outputs, texts, AbiFailure::TokenizeOutputs)
}

/// The values that the expected result texts `texts` stand for, for the
/// function that `request` designates in `fs`.
pub open spec fn expected_outputs(fs: Seq<FunctionAbi>, request: Seq<char>, texts: Seq<Seq<char>>) -> Result<Seq<TokenValue>, RunnerFailure> {
    match runner_lookup(fs, request) {
        Err(e) => Err(e),
        Ok(f) => match tokenized(f.outputs, texts) {
            Some(vs) => Ok(vs),
            None => Err(RunnerFailure::Abi(AbiFailure::TokenizeOutputs)),
        },
    }
}

} // verus!
