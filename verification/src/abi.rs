//! A contract's ABI description and the operations on it: loading the
//! description, finding a function by name or signature, turning argument
//! texts into tokens, encoding a call and decoding what a call returned.

use vstd::prelude::*;
use vstd::utf8::is_ascii_chars;
use vstd::string::*;

use crate::abi_token::{AbiToken, TokenValue, token_values, lemma_token_values};
use crate::param_kind::{
    KindValue, ParamKind, copy_kinds, enclosed, text_enclosed, lemma_kind_values, join_type_names, join_types, kind_texts, kind_values,
    pairwise_fit, all_fixed_bytes_within, kinds_fixed_bytes_within,
};
use crate::ethabi_bridge::{
    abi_description, lenient_token, encoded_call, decoded_output, load_abi_description, tokenize_lenient,
    encode_input, decode_output,
};

verus! {

/// A function of a contract's ABI description: its name and the types of
/// its parameters and of its results.
#[derive(Debug)]
pub struct AbiFunction {
    pub name: String,
    pub inputs: Vec<ParamKind>,
    pub outputs: Vec<ParamKind>,
}

/// The mathematical value of an `AbiFunction`.
pub struct FunctionAbi {
    pub name: Seq<char>,
    pub inputs: Seq<KindValue>,
    pub outputs: Seq<KindValue>,
}

/// The texts of a sequence of strings.
pub open spec fn string_views(s: Seq<String>) -> Seq<Seq<char>> {
    s.map_values(|x: String| x@)
}

/// The texts of a sequence of string slices.
pub open spec fn str_views(s: Seq<&str>) -> Seq<Seq<char>> {
    s.map_values(|x: &str| x@)
}

impl View for AbiFunction {
    type V = FunctionAbi;

    open spec fn view(&self) -> FunctionAbi {
        FunctionAbi {
            name: self.name@,
            inputs: kind_values(self.inputs@),
            outputs: kind_values(self.outputs@),
        }
    }
}

/// The functions of a contract's ABI description, grouped by name in the
/// order of their names, and overloads of one name in the order in which the
/// description lists them.
#[derive(Debug)]
pub struct AbiContract {
    pub functions: Vec<AbiFunction>,
}

/// The values of a sequence of functions.
pub open spec fn function_views(s: Seq<AbiFunction>) -> Seq<FunctionAbi> {
    s.map_values(|f: AbiFunction| f@)
}

impl View for AbiContract {
    type V = Seq<FunctionAbi>;

    open spec fn view(&self) -> Seq<FunctionAbi> {
        function_views(self.functions@)
    }
}

/// Why an ABI operation failed.
#[derive(Debug)]
pub enum AbiError {
    /// The ABI description could not be read.
    LoadContract,
    /// No function of the contract has the requested signature.
    InvalidFunctionSignature(String),
    /// No function of the contract has the requested name.
    InvalidFunctionName(String),
    /// Several functions have the requested name; a signature is needed.
    AmbiguousFunctionName(String),
    /// An argument text could not be read as a value of its parameter's type.
    TokenizeInputs,
    /// An expected result text could not be read as a value of its type.
    TokenizeOutputs,
    /// The arguments could not be encoded as a call of the function.
    Encode,
    /// The returned bytes could not be decoded as the function's results.
    Decode,
}

/// The mathematical value of an `AbiError`.
pub enum AbiFailure {
    LoadContract,
    InvalidFunctionSignature(Seq<char>),
    InvalidFunctionName(Seq<char>),
    AmbiguousFunctionName(Seq<char>),
    TokenizeInputs,
    TokenizeOutputs,
    Encode,
    Decode,
}

impl View for AbiError {
    type V = AbiFailure;

    open spec fn view(&self) -> AbiFailure {
        match self {
            AbiError::LoadContract => AbiFailure::LoadContract,
            AbiError::InvalidFunctionSignature(s) => AbiFailure::InvalidFunctionSignature(s@),
            AbiError::InvalidFunctionName(s) => AbiFailure::InvalidFunctionName(s@),
            AbiError::AmbiguousFunctionName(s) => AbiFailure::AmbiguousFunctionName(s@),
            AbiError::TokenizeInputs => AbiFailure::TokenizeInputs,
            AbiError::TokenizeOutputs => AbiFailure::TokenizeOutputs,
            AbiError::Encode => AbiFailure::Encode,
            AbiError::Decode => AbiFailure::Decode,
        }
    }
}

/// A function lookup's result, taken by its value.
pub open spec fn function_result_view(r: Result<AbiFunction, AbiError>) -> Result<FunctionAbi, AbiFailure> {
    match r {
        Ok(f) => Ok(f@),
        Err(e) => Err(e@),
    }
}

/// A result holding tokens, taken by their values.
pub open spec fn tokens_result_view(r: Result<Vec<AbiToken>, AbiError>) -> Result<Seq<TokenValue>, AbiFailure> {
    match r {
        Ok(ts) => Ok(token_values(ts@)),
        Err(e) => Err(e@),
    }
}

/// A result holding bytes, taken by their view.
pub open spec fn bytes_result_view(r: Result<Vec<u8>, AbiError>) -> Result<Seq<u8>, AbiFailure> {
    match r {
        Ok(b) => Ok(b@),
        Err(e) => Err(e@),
    }
}

// ---------------------------------------------------------------------------
// Signatures

/// The signature that identifies a function: `name(inputs)` when the list of
/// result type names is empty text, else `name(inputs):(outputs)`, with the
/// canonical type names joined by commas.
pub open spec fn function_signature(f: FunctionAbi) -> Seq<char> {
    let ins = join_types(kind_texts(f.inputs));
    let outs = join_types(kind_texts(f.outputs));
    if outs.len() == 0 {
        f.name + seq!['('] + ins + seq![')']
    } else {
        f.name + seq!['('] + ins + seq![')', ':', '('] + outs + seq![')']
    }
}

/// The signature of `f`, as `ethabi`'s `Function::signature` writes it.
pub fn signature(f: &AbiFunction) -> (s: String)
    ensures
        s@ == function_signature(f@),
{
    let ins = join_type_names(&f.inputs);
    let outs = join_type_names(&f.outputs);
    let mut s = f.name.clone();
    proof {
        reveal_strlit("(");
        reveal_strlit(")");
        reveal_strlit(":(");
    }
    s.append("(");
    s.append(ins.as_str());
    s.append(")");
    if outs.as_str().unicode_len() != 0 {
        s.append(":(");
        s.append(outs.as_str());
        s.append(")");
    }
    assert(s@ =~= function_signature(f@));
    s
}

// ---------------------------------------------------------------------------
// Function lookup

/// The position of the first `c` in `s` from `from` on; `s.len()` where there is none.
pub open spec fn index_of_char(s: Seq<char>, c: char, from: int) -> int
    decreases s.len() - from,
{
    if from < 0 || from >= s.len() {
        s.len() as int
    } else if s[from] == c {
        from
    } else {
        index_of_char(s, c, from + 1)
    }
}

/// The functions of `fs` named `name`, in order.
pub open spec fn overloads(fs: Seq<FunctionAbi>, name: Seq<char>) -> Seq<FunctionAbi>
    decreases fs.len(),
{
    if fs.len() == 0 {
        Seq::empty()
    } else {
        let rest = overloads(fs.drop_last(), name);
        if fs.last().name == name {
            rest.push(fs.last())
        } else {
            rest
        }
    }
}

/// The position of the first function of `fs`, from `from` on, whose
/// signature is `sig`; `fs.len()` where there is none.
pub open spec fn index_of_signature(fs: Seq<FunctionAbi>, sig: Seq<char>, from: int) -> int
    decreases fs.len() - from,
{
    if from < 0 || from >= fs.len() {
        fs.len() as int
    } else if function_signature(fs[from]) == sig {
        from
    } else {
        index_of_signature(fs, sig, from + 1)
    }
}

/// Which function of the contract `fs` a request names. A request holding
/// `(` is a signature: the functions named by the text before the first `(`
/// are searched for the first whose signature is the whole request. Any
/// other request is a name, which must belong to exactly one function.
pub open spec fn load_function_result(fs: Seq<FunctionAbi>, request: Seq<char>) -> Result<FunctionAbi, AbiFailure> {
    let p = index_of_char(request, '(', 0);
    if p < request.len() {
        let candidates = overloads(fs, request.subrange(0, p));
        let k = index_of_signature(candidates, request, 0);
        if k < candidates.len() {
            Ok(candidates[k])
        } else {
            Err(AbiFailure::InvalidFunctionSignature(request))
        }
    } else {
        let candidates = overloads(fs, request);
        if candidates.len() == 0 {
            Err(AbiFailure::InvalidFunctionName(request))
        } else if candidates.len() == 1 {
            Ok(candidates[0])
        } else {
            Err(AbiFailure::AmbiguousFunctionName(request))
        }
    }
}

/// The functions named `name` are functions of `fs` with that name, and
/// every function of `fs` with that name is among them.
pub proof fn lemma_overloads(fs: Seq<FunctionAbi>, name: Seq<char>)
    ensures
        forall|i: int| 0 <= i < overloads(fs, name).len() ==> (#[trigger] overloads(fs, name)[i]).name == name
            && fs.contains(overloads(fs, name)[i]),
        forall|j: int| 0 <= j < fs.len() && (#[trigger] fs[j]).name == name ==> overloads(fs, name).contains(fs[j]),
    decreases fs.len(),
{
    if fs.len() > 0 {
        let rest = fs.drop_last();
        lemma_overloads(rest, name);
        assert forall|i: int| 0 <= i < overloads(fs, name).len() implies (#[trigger] overloads(fs, name)[i]).name == name
            && fs.contains(overloads(fs, name)[i]) by {
            if i < overloads(rest, name).len() {
                assert(overloads(fs, name)[i] == overloads(rest, name)[i]);
                let k = choose|k: int| 0 <= k < rest.len() && rest[k] == overloads(rest, name)[i];
                assert(fs[k] == rest[k]);
            } else {
                assert(fs[fs.len() - 1] == fs.last());
            }
        }
        assert forall|j: int| 0 <= j < fs.len() && (#[trigger] fs[j]).name == name implies overloads(fs, name).contains(fs[j]) by {
            if j < fs.len() - 1 {
                assert(fs[j] == rest[j]);
                let k = choose|k: int| 0 <= k < overloads(rest, name).len() && overloads(rest, name)[k] == rest[j];
                assert(overloads(fs, name)[k] == overloads(rest, name)[k]);
            } else {
                assert(overloads(fs, name)[overloads(fs, name).len() - 1] == fs.last());
            }
        }
    }
}

/// The signature search stops at a function with the wanted signature, and
/// finds one wherever there is one from `from` on.
pub proof fn lemma_index_of_signature(fs: Seq<FunctionAbi>, sig: Seq<char>, from: int)
    requires
        0 <= from <= fs.len(),
    ensures
        from <= index_of_signature(fs, sig, from) <= fs.len(),
        index_of_signature(fs, sig, from) < fs.len() ==> function_signature(fs[index_of_signature(fs, sig, from)]) == sig,
        (exists|j: int| from <= j < fs.len() && function_signature(#[trigger] fs[j]) == sig) ==> index_of_signature(fs, sig, from) < fs.len(),
    decreases fs.len() - from,
{
    if from < fs.len() {
        lemma_index_of_signature(fs, sig, from + 1);
        if exists|j: int| from <= j < fs.len() && function_signature(#[trigger] fs[j]) == sig {
            let j = choose|j: int| from <= j < fs.len() && function_signature(#[trigger] fs[j]) == sig;
            if j > from {
                assert(from + 1 <= j < fs.len() && function_signature(fs[j]) == sig);
            }
        }
    }
}

/// The search for `c` stops at the first `c`.
pub proof fn lemma_index_of_char_at(s: Seq<char>, c: char, from: int, n: int)
    requires
        0 <= from <= n < s.len(),
        s[n] == c,
        forall|j: int| from <= j < n ==> s[j] != c,
    ensures
        index_of_char(s, c, from) == n,
    decreases n - from,
{
    if from < n {
        lemma_index_of_char_at(s, c, from + 1, n);
    }
}

/// The search for `c` finds none where there is none.
pub proof fn lemma_index_of_char_none(s: Seq<char>, c: char, from: int)
    requires
        0 <= from <= s.len(),
        forall|j: int| from <= j < s.len() ==> s[j] != c,
    ensures
        index_of_char(s, c, from) == s.len(),
    decreases s.len() - from,
{
    if from < s.len() {
        lemma_index_of_char_none(s, c, from + 1);
    }
}

/// A found function is what the request asks for: a function of the
/// contract, whose signature is the request where the request is a
/// signature, and whose name is the request where it is a name.
pub proof fn lemma_loaded_function_matches_request(fs: Seq<FunctionAbi>, request: Seq<char>)
    ensures
        load_function_result(fs, request) matches Ok(f) ==> fs.contains(f),
        load_function_result(fs, request) matches Ok(f) ==> (if request.contains('(') {
            function_signature(f) == request
        } else {
            f.name == request
        }),
{
    let p = index_of_char(request, '(', 0);
    lemma_index_of_char_range(request, '(', 0);
    if request.contains('(') {
        let j = choose|j: int| 0 <= j < request.len() && request[j] == '(';
        if p == request.len() {
            assert forall|k: int| 0 <= k < request.len() implies request[k] != '(' by {
                if request[k] == '(' {
                    lemma_index_of_char_none_first(request, '(', 0, k);
                }
            }
        }
    } else {
        lemma_index_of_char_none(request, '(', 0);
    }
    if p < request.len() {
        let cs = overloads(fs, request.subrange(0, p));
        lemma_overloads(fs, request.subrange(0, p));
        lemma_index_of_signature(cs, request, 0);
    } else {
        lemma_overloads(fs, request);
    }
}

/// The search for `c` ends within the sequence or at its end.
proof fn lemma_index_of_char_range(s: Seq<char>, c: char, from: int)
    requires
        0 <= from <= s.len(),
    ensures
        from <= index_of_char(s, c, from) <= s.len(),
        index_of_char(s, c, from) < s.len() ==> s[index_of_char(s, c, from)] == c,
    decreases s.len() - from,
{
    if from < s.len() {
        lemma_index_of_char_range(s, c, from + 1);
    }
}

/// The search for `c` from `from` stops no later than any position that holds `c`.
proof fn lemma_index_of_char_none_first(s: Seq<char>, c: char, from: int, k: int)
    requires
        0 <= from <= k < s.len(),
        s[k] == c,
    ensures
        index_of_char(s, c, from) <= k,
    decreases k - from,
{
    if from < k && s[from] != c {
        lemma_index_of_char_none_first(s, c, from + 1, k);
    }
}

/// Every function of a contract whose name holds no `(` can be found by its
/// own signature: the lookup gives a function with that name and signature
/// (the first such, where the description repeats it).
pub proof fn lemma_function_found_by_signature(fs: Seq<FunctionAbi>, f: FunctionAbi)
    requires
        fs.contains(f),
        !f.name.contains('('),
    ensures
        load_function_result(fs, function_signature(f)) matches Ok(g)
            && function_signature(g) == function_signature(f) && g.name == f.name,
{
    let sig = function_signature(f);
    let n = f.name.len() as int;
    assert(sig[n] == '(');
    assert forall|j: int| 0 <= j < n implies sig[j] != '(' by {
        assert(sig[j] == f.name[j]);
        if f.name[j] == '(' {
            assert(f.name.contains('('));
        }
    }
    lemma_index_of_char_at(sig, '(', 0, n);
    assert(sig.subrange(0, n) =~= f.name);
    let cs = overloads(fs, f.name);
    lemma_overloads(fs, f.name);
    let i = choose|i: int| 0 <= i < fs.len() && fs[i] == f;
    assert(fs[i].name == f.name);
    assert(cs.contains(f));
    let j = choose|j: int| 0 <= j < cs.len() && cs[j] == f;
    assert(function_signature(cs[j]) == sig);
    lemma_index_of_signature(cs, sig, 0);
}

/// The functions that a name designates are exactly the functions of the
/// contract that bear it, each once and in the contract's order.
pub proof fn lemma_overloads_are_the_named_functions(fs: Seq<FunctionAbi>, name: Seq<char>)
    ensures
        overloads(fs, name) == fs.filter(|f: FunctionAbi| f.name == name),
    decreases fs.len(),
{
    reveal(Seq::filter);
    if fs.len() > 0 {
        lemma_overloads_are_the_named_functions(fs.drop_last(), name);
    }
}

/// No function bears a name that no function of the contract bears.
proof fn lemma_overloads_none(fs: Seq<FunctionAbi>, name: Seq<char>)
    requires
        forall|j: int| 0 <= j < fs.len() ==> (#[trigger] fs[j]).name != name,
    ensures
        overloads(fs, name).len() == 0,
    decreases fs.len(),
{
    if fs.len() > 0 {
        assert forall|j: int| 0 <= j < fs.drop_last().len() implies (#[trigger] fs.drop_last()[j]).name != name by {
            assert(fs.drop_last()[j] == fs[j]);
        }
        lemma_overloads_none(fs.drop_last(), name);
        assert(fs.last() == fs[fs.len() - 1]);
    }
}

/// A name that exactly one function of the contract bears designates that
/// function alone.
proof fn lemma_overloads_unique(fs: Seq<FunctionAbi>, name: Seq<char>, i: int)
    requires
        0 <= i < fs.len(),
        fs[i].name == name,
        forall|j: int| 0 <= j < fs.len() && j != i ==> (#[trigger] fs[j]).name != name,
    ensures
        overloads(fs, name) == seq![fs[i]],
    decreases fs.len(),
{
    let rest = fs.drop_last();
    if i == fs.len() - 1 {
        assert forall|j: int| 0 <= j < rest.len() implies (#[trigger] rest[j]).name != name by {
            assert(rest[j] == fs[j]);
        }
        lemma_overloads_none(rest, name);
        assert(overloads(fs, name) =~= seq![fs[i]]);
    } else {
        assert(rest[i] == fs[i]);
        assert forall|j: int| 0 <= j < rest.len() && j != i implies (#[trigger] rest[j]).name != name by {
            assert(rest[j] == fs[j]);
        }
        lemma_overloads_unique(rest, name, i);
        assert(fs.last() == fs[fs.len() - 1]);
    }
}

/// A request that is a name (it holds no `(`) and that exactly one function
/// of the contract bears finds that function.
pub proof fn lemma_unique_name_is_found(fs: Seq<FunctionAbi>, name: Seq<char>, i: int)
    requires
        !name.contains('('),
        0 <= i < fs.len(),
        fs[i].name == name,
        forall|j: int| 0 <= j < fs.len() && j != i ==> (#[trigger] fs[j]).name != name,
    ensures
        load_function_result(fs, name) == Ok::<FunctionAbi, AbiFailure>(fs[i]),
{
    assert forall|j: int| 0 <= j < name.len() implies name[j] != '(' by {
        if name[j] == '(' {
            assert(name.contains('('));
        }
    }
    lemma_index_of_char_none(name, '(', 0);
    lemma_overloads_unique(fs, name, i);
}

fn find_char(s: &str, c: char) -> (r: usize)
    ensures
        r == index_of_char(s@, c, 0),
{
    let n = s.unicode_len();
    let mut i: usize = 0;
    while i < n
        invariant
            n == s@.len(),
            i <= n,
            index_of_char(s@, c, i as int) == index_of_char(s@, c, 0),
        decreases n - i,
    {
        if s.get_char(i) == c {
            return i;
        }
        i = i + 1;
    }
    i
}

/// A copy of `f`.
pub fn copy_function(f: &AbiFunction) -> (r: AbiFunction)
    ensures
        r@ == f@,
{
    AbiFunction { name: f.name.clone(), inputs: copy_kinds(&f.inputs), outputs: copy_kinds(&f.outputs) }
}

fn functions_named(contract: &AbiContract, name: &String) -> (r: Vec<AbiFunction>)
    ensures
        function_views(r@) == overloads(contract@, name@),
{
    let mut r: Vec<AbiFunction> = Vec::new();
    let n = contract.functions.len();
    for i in 0..n
        invariant
            n == contract.functions@.len(),
            function_views(r@) == overloads(contract@.take(i as int), name@),
    {
        let ghost before = r@;
        assert(contract@.take(i + 1).drop_last() =~= contract@.take(i as int));
        if contract.functions[i].name == *name {
            r.push(copy_function(&contract.functions[i]));
            assert(function_views(r@) =~= function_views(before).push(contract@[i as int]));
        }
    }
    assert(contract@.take(n as int) =~= contract@);
    r
}

/// Finds the function that `name_or_signature` designates in `contract`; see
/// `load_function_result`.
pub fn abi_load_function(contract: &AbiContract, name_or_signature: &str) -> (r: Result<AbiFunction, AbiError>)
    ensures
        function_result_view(r) == load_function_result(contract@, name_or_signature@),
{
    let n = name_or_signature.unicode_len();
    let p = find_char(name_or_signature, '(');
    if p < n {
        let name = name_or_signature.substring_char(0, p).to_owned();
        let candidates = functions_named(contract, &name);
        let wanted = name_or_signature.to_owned();
        let ghost cs = function_views(candidates@);
        let mut i: usize = 0;
        while i < candidates.len()
            invariant
                cs == function_views(candidates@),
                cs == overloads(contract@, name_or_signature@.subrange(0, p as int)),
                wanted@ == name_or_signature@,
                p < name_or_signature@.len(),
                p == index_of_char(name_or_signature@, '(', 0),
                i <= candidates@.len(),
                index_of_signature(cs, wanted@, i as int) == index_of_signature(cs, wanted@, 0),
            decreases candidates@.len() - i,
        {
            let sig = signature(&candidates[i]);
            if sig == wanted {
                assert(cs[i as int] == candidates@[i as int]@);
                assert(index_of_signature(cs, wanted@, i as int) == i);
                return Ok(copy_function(&candidates[i]));
            }
            i = i + 1;
        }
        Err(AbiError::InvalidFunctionSignature(wanted))
    } else {
        let name = name_or_signature.to_owned();
        let candidates = functions_named(contract, &name);
        if candidates.len() == 0 {
            Err(AbiError::InvalidFunctionName(name))
        } else if candidates.len() == 1 {
            Ok(copy_function(&candidates[0]))
        } else {
            Err(AbiError::AmbiguousFunctionName(name))
        }
    }
}

// ---------------------------------------------------------------------------
// Loading, tokenizing, encoding, decoding

/// The state of a left-to-right scan of a JSON text, which looks at the
/// values of the keys `type` (the texts that `ethabi` reads as type names).
#[derive(Clone, Copy)]
pub struct JsonScan {
    /// Nothing refused so far.
    pub ok: bool,
    /// The scan is inside a string.
    pub in_string: bool,
    /// The previous byte of the string is an escaping backslash.
    pub escaped: bool,
    /// How many bytes of `type` the string matches so far; 5 once it cannot be `type`.
    pub key_progress: u8,
    /// The string holds an escape (so it may stand for `type`).
    pub key_escaped: bool,
    /// 1 after a string that may be `type`; 2 after that and a colon.
    pub after_key: u8,
    /// The string is the value of a key `type`.
    pub type_value: bool,
    /// A `[` was seen since the last parenthesis or comma of the type name.
    pub open: bool,
    /// The brackets and parentheses of the type name so far (counted up to 1025).
    pub nesting: u16,
    /// The type name holds a byte that is not ASCII.
    pub wide: bool,
    /// The type name holds a `)` or `]`.
    pub closing: bool,
    /// 1 after a `]` with no `[` since the last parenthesis or comma, or
    /// after such a `]` and complete array suffixes `[..]`; 2 inside such a
    /// suffix after its `[`; 3 inside it after a sign or digits; 0 otherwise.
    pub pending: u8,
}

/// The byte of `type` at position `k`.
pub open spec fn type_key_byte(k: u8) -> u8 {
    if k == 0 { 0x74 } else if k == 1 { 0x79 } else if k == 2 { 0x70 } else { 0x65 }
}

/// One byte `b` of a type name (neither a quote nor a backslash). A type
/// name is refused where a `]` that has no `[` since the last parenthesis or
/// comma ends a part that `ethabi`'s reader reads as an array type (it is
/// followed, after array suffixes `[n]` or `[]`, by a comma, a parenthesis
/// or the end of the name), where it holds more than 1024 brackets and
/// parentheses, and where it holds both a byte that is not ASCII and a `)`
/// or `]`.
pub open spec fn type_name_step(st: JsonScan, b: u8) -> JsonScan {
    let delim = b == 0x28 || b == 0x29 || b == 0x2c;
    let digit = 0x30 <= b && b <= 0x39;
    let pending: u8 = if delim {
        0
    } else if st.pending == 2 && (digit || b == 0x2b) {
        3
    } else if st.pending == 3 && digit {
        3
    } else if (st.pending == 2 || st.pending == 3) && b == 0x5d {
        1
    } else if st.pending == 1 && b == 0x5b {
        2
    } else if b == 0x5d && !st.open {
        1
    } else {
        0
    };
    let nesting: u16 = if (b == 0x5b || b == 0x28) && st.nesting < 1025 { (st.nesting + 1) as u16 } else { st.nesting };
    let wide = st.wide || b >= 0x80;
    let closing = st.closing || b == 0x29 || b == 0x5d;
    let refused = (delim && st.pending == 1) || nesting > 1024 || (wide && closing);
    JsonScan {
        ok: st.ok && !refused,
        open: if delim { false } else if b == 0x5b { true } else { st.open },
        nesting,
        wide,
        closing,
        pending,
        ..st
    }
}

/// One step of the scan, over the byte `b`. Besides what `type_name_step`
/// refuses, a type name holding an escape is refused.
pub open spec fn json_step(st: JsonScan, b: u8) -> JsonScan {
    if st.in_string {
        if st.escaped {
            JsonScan { escaped: false, ..st }
        } else if b == 0x5c {
            JsonScan { ok: st.ok && !st.type_value, escaped: true, key_escaped: true, ..st }
        } else if b == 0x22 {
            JsonScan {
                ok: st.ok && !(st.type_value && st.pending == 1),
                in_string: false,
                after_key: if !st.type_value && (st.key_escaped || st.key_progress == 4) { 1 } else { 0 },
                type_value: false,
                ..st
            }
        } else {
            let key_progress: u8 = if st.key_progress < 4 && b == type_key_byte(st.key_progress) {
                (st.key_progress + 1) as u8
            } else {
                5
            };
            let next = JsonScan { key_progress, ..st };
            if st.type_value { type_name_step(next, b) } else { next }
        }
    } else if b == 0x22 {
        JsonScan {
            ok: st.ok,
            in_string: true,
            escaped: false,
            key_progress: 0,
            key_escaped: false,
            after_key: 0,
            type_value: st.after_key == 2,
            open: false,
            nesting: 0,
            wide: false,
            closing: false,
            pending: 0,
        }
    } else if b == 0x20 || b == 0x09 || b == 0x0a || b == 0x0d {
        st
    } else if b == 0x3a {
        JsonScan { after_key: if st.after_key == 1 { 2 } else { 0 }, ..st }
    } else {
        JsonScan { after_key: 0, ..st }
    }
}

/// The scan's state before any byte.
pub open spec fn json_scan_start() -> JsonScan {
    JsonScan {
        ok: true,
        in_string: false,
        escaped: false,
        key_progress: 0,
        key_escaped: false,
        after_key: 0,
        type_value: false,
        open: false,
        nesting: 0,
        wide: false,
        closing: false,
        pending: 0,
    }
}

/// The scan's state after the first `n` bytes of `json`.
pub open spec fn json_scan(json: Seq<u8>, n: nat) -> JsonScan
    decreases n,
{
    if n == 0 {
        json_scan_start()
    } else {
        json_step(json_scan(json, (n - 1) as nat), json[n - 1])
    }
}

/// Whether the values of the keys `type` in a JSON text can be handed to
/// `ethabi`'s reader of type names (see `json_step`). That reader panics on
/// a name with a part that ends in `]` without a `[` (it subtracts past
/// zero), on the names of arrays and tuples that are not ASCII (it cuts them
/// at character counts taken as byte offsets), and it recurses once per
/// bracket or parenthesis. The other strings of the text are not looked at.
pub open spec fn json_types_readable(json: Seq<u8>) -> bool {
    json_scan(json, json.len()).ok
}

/// A blank (space, tab, line feed, carriage return) outside strings leaves
/// the scan as it was.
pub proof fn lemma_json_blank_step(st: JsonScan, b: u8)
    requires
        !st.in_string,
        b == 0x20 || b == 0x09 || b == 0x0a || b == 0x0d,
    ensures
        json_step(st, b) == st,
{
}

/// The scan of the first `n` bytes depends on those bytes alone.
proof fn lemma_json_scan_prefix(s1: Seq<u8>, s2: Seq<u8>, n: nat)
    requires
        n <= s1.len(),
        n <= s2.len(),
        forall|j: int| 0 <= j < n ==> s1[j] == s2[j],
    ensures
        json_scan(s1, n) == json_scan(s2, n),
    decreases n,
{
    if n > 0 {
        lemma_json_scan_prefix(s1, s2, (n - 1) as nat);
    }
}

/// After a blank inserted outside strings, the scans of the two texts agree
/// byte for byte.
proof fn lemma_json_scan_with_blank(a: Seq<u8>, w: u8, c: Seq<u8>, k: nat)
    requires
        !json_scan(a, a.len()).in_string,
        w == 0x20 || w == 0x09 || w == 0x0a || w == 0x0d,
        k <= c.len(),
    ensures
        json_scan(a + seq![w] + c, a.len() + 1 + k) == json_scan(a + c, a.len() + k),
    decreases k,
{
    let x = a + seq![w] + c;
    let y = a + c;
    if k == 0 {
        lemma_json_scan_prefix(x, a, a.len());
        lemma_json_scan_prefix(y, a, a.len());
        assert(x[a.len() as int] == w);
        lemma_json_blank_step(json_scan(a, a.len()), w);
    } else {
        lemma_json_scan_with_blank(a, w, c, (k - 1) as nat);
        assert(x[a.len() + 1 + k - 1] == c[k - 1]);
        assert(y[a.len() + k - 1] == c[k - 1]);
    }
}

/// Inserting a blank between the tokens of a JSON text (outside strings)
/// does not change whether its type names can be read.
pub proof fn lemma_json_blank_insertion(a: Seq<u8>, w: u8, c: Seq<u8>)
    requires
        !json_scan(a, a.len()).in_string,
        w == 0x20 || w == 0x09 || w == 0x0a || w == 0x0d,
    ensures
        json_types_readable(a + seq![w] + c) == json_types_readable(a + c),
{
    lemma_json_scan_with_blank(a, w, c, c.len());
    assert((a + seq![w] + c).len() == a.len() + 1 + c.len());
    assert((a + c).len() == a.len() + c.len());
}

fn scan_type_name(st: JsonScan, b: u8) -> (r: JsonScan)
    requires
        st.nesting <= 1025,
    ensures
        r == type_name_step(st, b),
        r.nesting <= 1025,
{
    let delim = b == 0x28 || b == 0x29 || b == 0x2c;
    let digit = 0x30 <= b && b <= 0x39;
    let pending: u8 = if delim {
        0
    } else if st.pending == 2 && (digit || b == 0x2b) {
        3
    } else if st.pending == 3 && digit {
        3
    } else if (st.pending == 2 || st.pending == 3) && b == 0x5d {
        1
    } else if st.pending == 1 && b == 0x5b {
        2
    } else if b == 0x5d && !st.open {
        1
    } else {
        0
    };
    let nesting: u16 = if (b == 0x5b || b == 0x28) && st.nesting < 1025 { st.nesting + 1 } else { st.nesting };
    let wide = st.wide || b >= 0x80;
    let closing = st.closing || b == 0x29 || b == 0x5d;
    let refused = (delim && st.pending == 1) || nesting > 1024 || (wide && closing);
    JsonScan {
        ok: st.ok && !refused,
        open: if delim { false } else if b == 0x5b { true } else { st.open },
        nesting,
        wide,
        closing,
        pending,
        ..st
    }
}

fn scan_byte(st: JsonScan, b: u8) -> (r: JsonScan)
    requires
        st.nesting <= 1025,
        st.key_progress <= 5,
    ensures
        r == json_step(st, b),
        r.nesting <= 1025,
        r.key_progress <= 5,
{
    if st.in_string {
        if st.escaped {
            JsonScan { escaped: false, ..st }
        } else if b == 0x5c {
            JsonScan { ok: st.ok && !st.type_value, escaped: true, key_escaped: true, ..st }
        } else if b == 0x22 {
            JsonScan {
                ok: st.ok && !(st.type_value && st.pending == 1),
                in_string: false,
                after_key: if !st.type_value && (st.key_escaped || st.key_progress == 4) { 1 } else { 0 },
                type_value: false,
                ..st
            }
        } else {
            let wanted: u8 = if st.key_progress == 0 { 0x74 } else if st.key_progress == 1 { 0x79 } else if st.key_progress == 2 { 0x70 } else { 0x65 };
            let key_progress: u8 = if st.key_progress < 4 && b == wanted { st.key_progress + 1 } else { 5 };
            let next = JsonScan { key_progress, ..st };
            if st.type_value { scan_type_name(next, b) } else { next }
        }
    } else if b == 0x22 {
        JsonScan {
            ok: st.ok,
            in_string: true,
            escaped: false,
            key_progress: 0,
            key_escaped: false,
            after_key: 0,
            type_value: st.after_key == 2,
            open: false,
            nesting: 0,
            wide: false,
            closing: false,
            pending: 0,
        }
    } else if b == 0x20 || b == 0x09 || b == 0x0a || b == 0x0d {
        st
    } else if b == 0x3a {
        JsonScan { after_key: if st.after_key == 1 { 2 } else { 0 }, ..st }
    } else {
        JsonScan { after_key: 0, ..st }
    }
}

/// Whether `json_types_readable` holds of `json`.
pub fn check_json_types(json: &[u8]) -> (r: bool)
    ensures
        r == json_types_readable(json@),
{
    let mut st = JsonScan {
        ok: true,
        in_string: false,
        escaped: false,
        key_progress: 0,
        key_escaped: false,
        after_key: 0,
        type_value: false,
        open: false,
        nesting: 0,
        wide: false,
        closing: false,
        pending: 0,
    };
    let n = json.len();
    for i in 0..n
        invariant
            n == json@.len(),
            st.nesting <= 1025,
            st.key_progress <= 5,
            json_scan(json@, i as nat) == st,
    {
        st = scan_byte(st, json[i]);
    }
    st.ok
}

/// Reads a contract's ABI description from its JSON text. A text whose type
/// names cannot be handed to `ethabi` (see `json_types_readable`) is refused.
pub fn abi_load_contract(abi_json: &[u8]) -> (r: Result<AbiContract, AbiError>)
    ensures
        !json_types_readable(abi_json@) ==> r matches Err(AbiError::LoadContract),
        json_types_readable(abi_json@) ==> (match abi_description(abi_json@) {
            Some(fs) => r matches Ok(c) && c@ == fs,
            None => r matches Err(AbiError::LoadContract),
        }),
{
    if !check_json_types(abi_json) {
        return Err(AbiError::LoadContract);
    }
    match load_abi_description(abi_json) {
        Some(c) => Ok(c),
        None => Err(AbiError::LoadContract),
    }
}

/// Whether the text `text` is handed to `ethabi`'s tokenizer for type `k`:
/// the texts of arrays and tuples that are enclosed in brackets or
/// parentheses must be ASCII (the tokenizer cuts those at character counts
/// taken as byte offsets, which can fall inside a character; it refuses the
/// others before cutting).
pub open spec fn text_tokenizable(k: KindValue, text: Seq<char>) -> bool {
    !enclosed(k, text) || is_ascii_chars(text)
}

/// The value read from `text` for type `k`: `ethabi`'s lenient reading,
/// where the text is handed to it; `None` where it is refused.
pub open spec fn read_token(k: KindValue, text: Seq<char>) -> Option<TokenValue> {
    if text_tokenizable(k, text) {
        lenient_token(k, text)
    } else {
        None
    }
}

/// The values read from the first `n` texts, each for the type at the same
/// position; `None` where one of them is refused.
pub open spec fn tokenized_prefix(kinds: Seq<KindValue>, texts: Seq<Seq<char>>, n: nat) -> Option<Seq<TokenValue>>
    decreases n,
{
    if n == 0 {
        Some(Seq::empty())
    } else {
        match tokenized_prefix(kinds, texts, (n - 1) as nat) {
            None => None,
            Some(done) => match read_token(kinds[n - 1], texts[n - 1]) {
                Some(t) => Some(done.push(t)),
                None => None,
            },
        }
    }
}

/// The number of type/text pairs: types and texts are paired by position,
/// and whichever list is longer has its extra entries ignored.
pub open spec fn paired_len(kinds: Seq<KindValue>, texts: Seq<Seq<char>>) -> nat {
    if kinds.len() <= texts.len() {
        kinds.len()
    } else {
        texts.len()
    }
}

/// The values read from `texts` for the types `kinds`, paired by position.
pub open spec fn tokenized(kinds: Seq<KindValue>, texts: Seq<Seq<char>>) -> Option<Seq<TokenValue>> {
    tokenized_prefix(kinds, texts, paired_len(kinds, texts))
}

/// A text that may be handed to `ethabi`'s tokenizer is read as `ethabi`
/// reads it: for every type, a text that is not enclosed as its values are
/// written, or that is ASCII, gives `ethabi`'s lenient reading.
pub proof fn lemma_readable_text_is_read_as_ethabi_reads(k: KindValue, text: Seq<char>)
    requires
        !enclosed(k, text) || is_ascii_chars(text),
    ensures
        read_token(k, text) == lenient_token(k, text),
        tokenized(seq![k], seq![text]) == (match lenient_token(k, text) {
            Some(v) => Some(seq![v]),
            None => None::<Seq<TokenValue>>,
        }),
{
    reveal_with_fuel(tokenized_prefix, 2);
    assert(seq![k][0] == k);
    assert(seq![text][0] == text);
    if let Some(v) = lenient_token(k, text) {
        assert(Seq::<TokenValue>::empty().push(v) =~= seq![v]);
    }
}

/// Once a text is refused, every longer prefix is refused.
pub proof fn lemma_tokenized_prefix_refused(kinds: Seq<KindValue>, texts: Seq<Seq<char>>, m: nat, n: nat)
    requires
        m <= n,
        tokenized_prefix(kinds, texts, m) is None,
    ensures
        tokenized_prefix(kinds, texts, n) is None,
    decreases n - m,
{
    if m < n {
        lemma_tokenized_prefix_refused(kinds, texts, m, (n - 1) as nat);
    }
}

/// A prefix that is read holds one value per text.
pub proof fn lemma_tokenized_prefix_len(kinds: Seq<KindValue>, texts: Seq<Seq<char>>, n: nat)
    ensures
        tokenized_prefix(kinds, texts, n) matches Some(vs) ==> vs.len() == n,
    decreases n,
{
    if n > 0 {
        lemma_tokenized_prefix_len(kinds, texts, (n - 1) as nat);
    }
}

/// Every type that is paired with a text is `string`.
pub open spec fn all_string_types(kinds: Seq<KindValue>, texts: Seq<Seq<char>>) -> bool {
    forall|i: int| 0 <= i < paired_len(kinds, texts) ==> #[trigger] kinds[i] == KindValue::Str
}

/// The first `n` texts themselves, as string values.
pub open spec fn string_values(texts: Seq<Seq<char>>, n: nat) -> Seq<TokenValue> {
    Seq::new(n, |i: int| TokenValue::Str(texts[i]))
}

fn tokenize_texts(kinds: &Vec<ParamKind>, texts: &Vec<&str>) -> (r: Option<Vec<AbiToken>>)
    ensures
        all_string_types(kind_values(kinds@), str_views(texts@)) ==> (r matches Some(ts)
            && token_values(ts@) == string_values(str_views(texts@), paired_len(kind_values(kinds@), str_views(texts@)))),
        r matches Some(ts) ==> ts@.len() == paired_len(kind_values(kinds@), str_views(texts@)),
        r matches Some(ts) ==> pairwise_fit(token_values(ts@), kind_values(kinds@)),
        (match tokenized(kind_values(kinds@), str_views(texts@)) {
            Some(vs) => r matches Some(ts) && token_values(ts@) == vs,
            None => r is None,
        }),
{
    let ghost ks = kind_values(kinds@);
    let ghost xs = str_views(texts@);
    proof {
        lemma_kind_values(kinds@);
    }
    let n = if kinds.len() <= texts.len() { kinds.len() } else { texts.len() };
    let mut tokens: Vec<AbiToken> = Vec::new();
    for i in 0..n
        invariant
            ks == kind_values(kinds@),
            xs == str_views(texts@),
            n == paired_len(ks, xs),
            ks.len() == kinds@.len(),
            forall|j: int| 0 <= j < kinds@.len() ==> #[trigger] ks[j] == kinds@[j].value(),
            n <= kinds@.len(),
            n <= texts@.len(),
            tokenized_prefix(ks, xs, i as nat) == Some(token_values(tokens@)),
            tokens@.len() == i,
            pairwise_fit(token_values(tokens@), ks),
            all_string_types(ks, xs) ==> token_values(tokens@) == string_values(xs, i as nat),
    {
        let readable = !text_enclosed(&kinds[i], texts[i]) || texts[i].is_ascii();
        let token = if readable { tokenize_lenient(&kinds[i], texts[i]) } else { None };
        assert(xs[i as int] == texts@[i as int]@);
        match token {
            Some(t) => {
                proof {
                    lemma_token_values(tokens@);
                }
                let ghost before = tokens@;
                tokens.push(t);
                assert(tokens@.drop_last() =~= before);
                proof {
                    lemma_token_values(tokens@);
                    let vs = token_values(tokens@);
                    assert(vs.drop_last() =~= token_values(before));
                    assert(vs.last() == t.value());
                    assert(ks[i as int] == kinds@[i as int].value());
                    assert(pairwise_fit(vs, ks));
                    if all_string_types(ks, xs) {
                        assert(ks[i as int] == KindValue::Str);
                        assert(token_values(tokens@) =~= string_values(xs, (i + 1) as nat));
                    }
                }
            },
            None => {
                proof {
                    if all_string_types(ks, xs) {
                        assert(ks[i as int] == KindValue::Str);
                    }
                }
                proof {
                    lemma_tokenized_prefix_refused(ks, xs, (i + 1) as nat, n as nat);
                }
                return None;
            },
        }
    }
    Some(tokens)
}

/// Reads the argument texts `inputs` as values of `function`'s parameter
/// types, paired by position (extra texts or parameters are ignored). The
/// bracketed texts of arrays and tuples must be ASCII (see `text_tokenizable`).
pub fn abi_tokenize_function_inputs(function: &AbiFunction, inputs: &Vec<&str>) -> (r: Result<Vec<AbiToken>, AbiError>)
    ensures
        tokens_result_view(r) == (match tokenized(function@.inputs, str_views(inputs@)) {
            Some(vs) => Ok(vs),
            None => Err(AbiFailure::TokenizeInputs),
        }),
        r matches Ok(ts) ==> ts@.len() == paired_len(function@.inputs, str_views(inputs@)),
        r matches Ok(ts) ==> pairwise_fit(token_values(ts@), function@.inputs),
        all_string_types(function@.inputs, str_views(inputs@)) ==> (r matches Ok(ts)
            && token_values(ts@) == string_values(str_views(inputs@), paired_len(function@.inputs, str_views(inputs@)))),
{
    proof {
        lemma_tokenized_prefix_len(function@.inputs, str_views(inputs@), paired_len(function@.inputs, str_views(inputs@)));
    }
    match tokenize_texts(&function.inputs, inputs) {
        Some(ts) => Ok(ts),
        None => Err(AbiError::TokenizeInputs),
    }
}

/// Reads the expected result texts `outputs` as values of `function`'s result
/// types, paired by position (extra texts or result types are ignored). The
/// bracketed texts of arrays and tuples must be ASCII (see `text_tokenizable`).
pub fn abi_tokenize_function_outputs(function: &AbiFunction, outputs: &Vec<&str>) -> (r: Result<Vec<AbiToken>, AbiError>)
    ensures
        tokens_result_view(r) == (match tokenized(function@.outputs, str_views(outputs@)) {
            Some(vs) => Ok(vs),
            None => Err(AbiFailure::TokenizeOutputs),
        }),
        r matches Ok(ts) ==> ts@.len() == paired_len(function@.outputs, str_views(outputs@)),
        r matches Ok(ts) ==> pairwise_fit(token_values(ts@), function@.outputs),
        all_string_types(function@.outputs, str_views(outputs@)) ==> (r matches Ok(ts)
            && token_values(ts@) == string_values(str_views(outputs@), paired_len(function@.outputs, str_views(outputs@)))),
{
    proof {
        lemma_tokenized_prefix_len(function@.outputs, str_views(outputs@), paired_len(function@.outputs, str_views(outputs@)));
    }
    match tokenize_texts(&function.outputs, outputs) {
        Some(ts) => Ok(ts),
        None => Err(AbiError::TokenizeOutputs),
    }
}

/// Encoding gives `ethabi`'s call data whenever every argument text is read
/// and `ethabi` encodes the arguments, whatever their number (none
/// included); it refuses exactly where a text is refused or `ethabi` refuses
/// the arguments.
pub proof fn lemma_encoding_is_ethabi_encoding(f: FunctionAbi, texts: Seq<Seq<char>>)
    ensures
        tokenized(f.inputs, texts) is None ==> encode_result(f, texts) == Err::<Seq<u8>, AbiFailure>(
            AbiFailure::TokenizeInputs,
        ),
        forall|args: Seq<TokenValue>|
            tokenized(f.inputs, texts) == Some(args) ==> encode_result(f, texts) == match #[trigger] encoded_call(f, args) {
                Some(b) => Ok::<Seq<u8>, AbiFailure>(b),
                None => Err::<Seq<u8>, AbiFailure>(AbiFailure::Encode),
            },
{
}

/// What encoding a call of `f` with the argument texts `texts` gives.
pub open spec fn encode_result(f: FunctionAbi, texts: Seq<Seq<char>>) -> Result<Seq<u8>, AbiFailure> {
    match tokenized(f.inputs, texts) {
        None => Err(AbiFailure::TokenizeInputs),
        Some(args) => match encoded_call(f, args) {
            Some(b) => Ok(b),
            None => Err(AbiFailure::Encode),
        },
    }
}

/// The call data for calling `function` with the argument texts `inputs`.
pub fn abi_encode(function: &AbiFunction, inputs: &Vec<&str>) -> (r: Result<Vec<u8>, AbiError>)
    ensures
        bytes_result_view(r) == encode_result(function@, str_views(inputs@)),
        r matches Ok(b) ==> b@.len() >= 4 && inputs@.len() >= function@.inputs.len(),
{
    let tokens = abi_tokenize_function_inputs(function, inputs)?;
    proof {
        lemma_kind_values(function.inputs@);
        lemma_token_values(tokens@);
        lemma_tokenized_prefix_len(
            function@.inputs,
            str_views(inputs@),
            paired_len(function@.inputs, str_views(inputs@)),
        );
    }
    match encode_input(function, &tokens) {
        Some(b) => Ok(b),
        None => Err(AbiError::Encode),
    }
}

/// Whether `ethabi`'s decoder can be handed `len` bytes of data for the
/// result types `kinds` without an overflow of its offsets: `usize` is 64
/// bits wide (the offsets it reads from the data go up to 32 bits, and it
/// adds a word to them), the data leaves room below `usize::MAX`, and no
/// fixed-size byte string type is so long that its end, counted from an
/// offset within the data, passes `usize::MAX`. (Such a type is longer than
/// the data, so decoding it can only fail where it is reached.)
pub open spec fn decode_in_range(kinds: Seq<KindValue>, len: nat) -> bool {
    usize::BITS == 64 && len <= usize::MAX - 64 && all_fixed_bytes_within(kinds, (usize::MAX - 64 - len) as nat)
}

/// What decoding the bytes `data` returned by a call of `f` gives.
pub open spec fn decode_result(f: FunctionAbi, data: Seq<u8>) -> Result<Seq<TokenValue>, AbiFailure> {
    if !decode_in_range(f.outputs, data.len()) {
        Err(AbiFailure::Decode)
    } else {
        match decoded_output(f, data) {
            Some(vs) => Ok(vs),
            None => Err(AbiFailure::Decode),
        }
    }
}

/// Within the bound on offsets, decoding gives exactly `ethabi`'s decoding,
/// whatever the number of result types: its values where it decodes the
/// data, `Decode` where it refuses it.
pub proof fn lemma_decoding_is_ethabi_decoding(f: FunctionAbi, data: Seq<u8>)
    requires
        decode_in_range(f.outputs, data.len()),
    ensures
        forall|vs: Seq<TokenValue>| #[trigger] decoded_output(f, data) == Some(vs)
            ==> decode_result(f, data) == Ok::<Seq<TokenValue>, AbiFailure>(vs),
        decoded_output(f, data) is None ==> decode_result(f, data) == Err::<Seq<TokenValue>, AbiFailure>(
            AbiFailure::Decode,
        ),
{
}

/// The results of `function` read from the bytes `data` that a call returned.
pub fn abi_decode(function: &AbiFunction, data: &Vec<u8>) -> (r: Result<Vec<AbiToken>, AbiError>)
    ensures
        tokens_result_view(r) == decode_result(function@, data@),
        r matches Ok(ts) ==> ts@.len() == function@.outputs.len(),
{
    proof {
        lemma_kind_values(function.outputs@);
    }
    if usize::BITS != 64 || data.len() > usize::MAX - 64 || !kinds_fixed_bytes_within(&function.outputs, usize::MAX - 64 - data.len()) {
        return Err(AbiError::Decode);
    }
    match decode_output(function, data.as_slice()) {
        Some(ts) => Ok(ts),
        None => Err(AbiError::Decode),
    }
}

} // verus!
