//! Contract tests: a function to call, its argument texts and its expected
//! result texts; the comparison of what a call produced against what was
//! expected; the verdict on one test and the count over a file of tests.

use vstd::prelude::*;

use crate::abi::{FunctionAbi, str_views, string_views};
use crate::abi_token::{AbiToken, TokenValue, same_token, token_values, lemma_token_values};
use crate::runner::{ContractTestRunner, RunnerError, RunnerFailure, expected_outputs, runner_lookup};

verus! {

/// One test of a contract: which function to call, the texts of its
/// arguments, and the texts of the results it should produce.
#[derive(Debug)]
pub struct ContractTest {
    pub function_name_or_signature: String,
    pub inputs: Vec<String>,
    pub outputs: Vec<String>,
}

/// Why a call's produced results do not match a test's expectations.
#[derive(Debug)]
pub enum CompareError {
    /// The test expects a different number of results (expected, produced).
    OutputCountMismatch(usize, usize),
    /// The expected result texts could not be read as values.
    Tokenize(RunnerError),
    /// Fewer expected texts were read than results produced (read, produced);
    /// the function has fewer result types than the test has texts.
    TokenizedCountMismatch(usize, usize),
    /// The result at this position differs from the expected one (the first such).
    ValueMismatch(usize),
}

/// The mathematical value of a `CompareError`.
pub enum CompareFailure {
    OutputCountMismatch(nat, nat),
    Tokenize(RunnerFailure),
    TokenizedCountMismatch(nat, nat),
    ValueMismatch(nat),
}

impl View for CompareError {
    type V = CompareFailure;

    open spec fn view(&self) -> CompareFailure {
        match self {
            CompareError::OutputCountMismatch(a, b) => CompareFailure::OutputCountMismatch(*a as nat, *b as nat),
            CompareError::Tokenize(e) => CompareFailure::Tokenize(e@),
            CompareError::TokenizedCountMismatch(a, b) => CompareFailure::TokenizedCountMismatch(*a as nat, *b as nat),
            CompareError::ValueMismatch(i) => CompareFailure::ValueMismatch(*i as nat),
        }
    }
}

/// A comparison's outcome, by its value.
pub open spec fn compare_view(r: Result<(), CompareError>) -> Result<(), CompareFailure> {
    match r {
        Ok(()) => Ok(()),
        Err(e) => Err(e@),
    }
}

/// The first position, from `from` on, where `a` and `b` differ; `a.len()`
/// where there is none.
pub open spec fn first_mismatch(a: Seq<TokenValue>, b: Seq<TokenValue>, from: int) -> int
    decreases a.len() - from,
{
    if from < 0 || from >= a.len() {
        a.len() as int
    } else if a[from] != b[from] {
        from
    } else {
        first_mismatch(a, b, from + 1)
    }
}

/// What comparing the results `produced` of a call of the function that
/// `request` designates in `fs` against the expected texts `expected` gives:
/// the counts must agree, the texts must read as values of the function's
/// result types, and each value must be the produced one.
pub open spec fn compare_result(fs: Seq<FunctionAbi>, request: Seq<char>, expected: Seq<Seq<char>>, produced: Seq<TokenValue>) -> Result<(), CompareFailure> {
    if expected.len() != produced.len() {
        Err(CompareFailure::OutputCountMismatch(expected.len(), produced.len()))
    } else {
        match expected_outputs(fs, request, expected) {
            Err(e) => Err(CompareFailure::Tokenize(e)),
            Ok(vs) => if vs.len() != produced.len() {
                Err(CompareFailure::TokenizedCountMismatch(vs.len(), produced.len()))
            } else if first_mismatch(vs, produced, 0) < vs.len() {
                Err(CompareFailure::ValueMismatch(first_mismatch(vs, produced, 0) as nat))
            } else {
                Ok(())
            },
        }
    }
}

/// The mismatch search finds none exactly where the sequences agree from `from` on.
pub proof fn lemma_first_mismatch(a: Seq<TokenValue>, b: Seq<TokenValue>, from: int)
    requires
        0 <= from <= a.len(),
        a.len() == b.len(),
    ensures
        from <= first_mismatch(a, b, from) <= a.len(),
        (first_mismatch(a, b, from) == a.len()) <==> (forall|j: int| from <= j < a.len() ==> a[j] == b[j]),
    decreases a.len() - from,
{
    if from < a.len() {
        lemma_first_mismatch(a, b, from + 1);
    }
}

/// A test passes exactly when it expects as many results as were produced
/// and its expected texts read, for the function it names, as exactly the
/// produced values.
pub proof fn lemma_compare_passes_iff_produced_expected(fs: Seq<FunctionAbi>, request: Seq<char>, expected: Seq<Seq<char>>, produced: Seq<TokenValue>)
    ensures
        (compare_result(fs, request, expected, produced) is Ok) <==> (expected.len() == produced.len()
            && expected_outputs(fs, request, expected) == Ok::<Seq<TokenValue>, RunnerFailure>(produced)),
{
    if expected.len() == produced.len() {
        if let Ok(vs) = expected_outputs(fs, request, expected) {
            if vs.len() == produced.len() {
                lemma_first_mismatch(vs, produced, 0);
                if first_mismatch(vs, produced, 0) == vs.len() {
                    assert(vs =~= produced);
                }
            }
        }
    }
}

fn as_strs(texts: &Vec<String>) -> (r: Vec<&str>)
    ensures
        str_views(r@) == string_views(texts@),
{
    let mut r: Vec<&str> = Vec::new();
    let n = texts.len();
    for i in 0..n
        invariant
            n == texts@.len(),
            r@.len() == i,
            forall|j: int| 0 <= j < i ==> #[trigger] r@[j]@ == texts@[j]@,
    {
        r.push(texts[i].as_str());
    }
    assert(str_views(r@) =~= string_views(texts@));
    r
}

/// Compares the results that a call produced against the test's expected results.
pub fn compare_contract_test_results(test_runner: &mut ContractTestRunner, contract_test: &ContractTest, produced_outputs: &Vec<AbiToken>) -> (r: Result<(), CompareError>)
    ensures
        final(test_runner).abi() == old(test_runner).abi(),
        contract_test.outputs@.len() != produced_outputs@.len() ==> final(test_runner).cached_requests()
            == old(test_runner).cached_requests(),
        contract_test.outputs@.len() == produced_outputs@.len() && runner_lookup(
            old(test_runner).abi(),
            contract_test.function_name_or_signature@,
        ) is Ok ==> final(test_runner).cached_requests() == old(test_runner).cached_requests().insert(
            contract_test.function_name_or_signature@,
        ),
        contract_test.outputs@.len() == produced_outputs@.len() && runner_lookup(
            old(test_runner).abi(),
            contract_test.function_name_or_signature@,
        ) is Err ==> final(test_runner).cached_requests() == old(test_runner).cached_requests(),
        compare_view(r) == compare_result(
            old(test_runner).abi(),
            contract_test.function_name_or_signature@,
            string_views(contract_test.outputs@),
            token_values(produced_outputs@),
        ),
{
    proof {
        lemma_token_values(produced_outputs@);
    }
    if contract_test.outputs.len() != produced_outputs.len() {
        return Err(CompareError::OutputCountMismatch(contract_test.outputs.len(), produced_outputs.len()));
    }
    let expected_strs = as_strs(&contract_test.outputs);
    let expected = match test_runner.tokenize_abi_function_outputs(
        contract_test.function_name_or_signature.as_str(),
        &expected_strs,
    ) {
        Ok(ts) => ts,
        Err(e) => return Err(CompareError::Tokenize(e)),
    };
    proof {
        lemma_token_values(expected@);
    }
    if expected.len() != produced_outputs.len() {
        return Err(CompareError::TokenizedCountMismatch(expected.len(), produced_outputs.len()));
    }
    let ghost vs = token_values(expected@);
    let ghost ps = token_values(produced_outputs@);
    let ghost abi0 = old(test_runner).abi();
    let ghost req = contract_test.function_name_or_signature@;
    let ghost texts = string_views(contract_test.outputs@);
    assert(expected_outputs(abi0, req, texts) == Ok::<Seq<TokenValue>, RunnerFailure>(vs));
    let n = expected.len();
    for i in 0..n
        invariant
            test_runner.abi() == abi0,
            abi0 == old(test_runner).abi(),
            runner_lookup(abi0, req) is Ok,
            test_runner.cached_requests() == old(test_runner).cached_requests().insert(req),
            req == contract_test.function_name_or_signature@,
            texts == string_views(contract_test.outputs@),
            texts.len() == ps.len(),
            expected_outputs(abi0, req, texts) == Ok::<Seq<TokenValue>, RunnerFailure>(vs),
            n == expected@.len(),
            n == produced_outputs@.len(),
            vs == token_values(expected@),
            ps == token_values(produced_outputs@),
            vs.len() == n,
            ps.len() == n,
            forall|k: int| 0 <= k < n ==> #[trigger] vs[k] == expected@[k].value(),
            forall|k: int| 0 <= k < n ==> #[trigger] ps[k] == produced_outputs@[k].value(),
            first_mismatch(vs, ps, i as int) == first_mismatch(vs, ps, 0),
    {
        if !same_token(&expected[i], &produced_outputs[i]) {
            assert(first_mismatch(vs, ps, i as int) == i);
            return Err(CompareError::ValueMismatch(i));
        }
    }
    Ok(())
}

/// The verdict on one contract test.
#[derive(Debug)]
pub enum TestVerdict {
    /// The function could not be invoked, or gave no usable answer.
    InvocationFailed(RunnerError),
    /// The function answered, but not what the test expects.
    Mismatch(Vec<AbiToken>, CompareError),
    /// The function answered what the test expects.
    Passed(Vec<AbiToken>),
}

impl TestVerdict {
    /// Whether the test passed.
    pub fn passed(&self) -> (b: bool)
        ensures
            b == (self is Passed),
    {
        match self {
            TestVerdict::Passed(_) => true,
            _ => false,
        }
    }
}

/// The verdict on a test, given what invoking its function gave: an
/// invocation error fails the test, and so do produced results that do not
/// match the expected ones.
pub fn judge_contract_test(test_runner: &mut ContractTestRunner, contract_test: &ContractTest, invocation: Result<Vec<AbiToken>, RunnerError>) -> (v: TestVerdict)
    ensures
        final(test_runner).abi() == old(test_runner).abi(),
        (match invocation {
            Err(e) => v matches TestVerdict::InvocationFailed(x) && x@ == e@,
            Ok(produced) => match compare_result(
                old(test_runner).abi(),
                contract_test.function_name_or_signature@,
                string_views(contract_test.outputs@),
                token_values(produced@),
            ) {
                Ok(()) => v matches TestVerdict::Passed(ts) && token_values(ts@) == token_values(produced@),
                Err(f) => v matches TestVerdict::Mismatch(ts, c) && token_values(ts@) == token_values(produced@) && c@ == f,
            },
        }),
{
    match invocation {
        Err(e) => TestVerdict::InvocationFailed(e),
        Ok(outputs) => match compare_contract_test_results(test_runner, contract_test, &outputs) {
            Ok(()) => TestVerdict::Passed(outputs),
            Err(c) => TestVerdict::Mismatch(outputs, c),
        },
    }
}

/// The number of `true` entries of `s`.
pub open spec fn count_passed(s: Seq<bool>) -> nat
    decreases s.len(),
{
    if s.len() == 0 {
        0
    } else {
        count_passed(s.drop_last()) + if s.last() { 1nat } else { 0nat }
    }
}

/// The numbers of tests that succeeded and that failed, from each test's
/// pass/fail result.
pub fn tally(passed: &Vec<bool>) -> (r: (u32, u32))
    requires
        passed@.len() <= u32::MAX,
    ensures
        r.0 == count_passed(passed@),
        r.0 + r.1 == passed@.len(),
{
    let mut success_count: u32 = 0;
    let mut failed_count: u32 = 0;
    let n = passed.len();
    for i in 0..n
        invariant
            n == passed@.len(),
            n <= u32::MAX,
            success_count == count_passed(passed@.take(i as int)),
            success_count + failed_count == i,
    {
        assert(passed@.take(i + 1).drop_last() =~= passed@.take(i as int));
        if passed[i] {
            success_count = success_count + 1;
        } else {
            failed_count = failed_count + 1;
        }
    }
    assert(passed@.take(n as int) =~= passed@);
    (success_count, failed_count)
}

} // verus!
