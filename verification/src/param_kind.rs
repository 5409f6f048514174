//! Parameter types of ABI functions (the kinds of `ethabi`'s `ParamType`),
//! held as plain data, with their canonical type names.

use vstd::prelude::*;
use vstd::string::*;

use crate::abi_token::TokenValue;

verus! {

/// The type of one parameter or result of an ABI function.
#[derive(Debug)]
pub enum ParamKind {
    Address,
    Bytes,
    Int(usize),
    Uint(usize),
    Bool,
    Str,
    Array(Box<ParamKind>),
    FixedBytes(usize),
    FixedArray(Box<ParamKind>, usize),
    Tuple(Vec<ParamKind>),
}

/// The mathematical value of a `ParamKind`.
pub enum KindValue {
    Address,
    Bytes,
    Int(nat),
    Uint(nat),
    Bool,
    Str,
    Array(Box<KindValue>),
    FixedBytes(nat),
    FixedArray(Box<KindValue>, nat),
    Tuple(Seq<KindValue>),
}

impl ParamKind {
    pub open spec fn value(&self) -> KindValue
        decreases self, 0nat,
    {
        match self {
            ParamKind::Address => KindValue::Address,
            ParamKind::Bytes => KindValue::Bytes,
            ParamKind::Int(n) => KindValue::Int(*n as nat),
            ParamKind::Uint(n) => KindValue::Uint(*n as nat),
            ParamKind::Bool => KindValue::Bool,
            ParamKind::Str => KindValue::Str,
            ParamKind::Array(k) => KindValue::Array(Box::new(k.value())),
            ParamKind::FixedBytes(n) => KindValue::FixedBytes(*n as nat),
            ParamKind::FixedArray(k, n) => KindValue::FixedArray(Box::new(k.value()), *n as nat),
            ParamKind::Tuple(ks) => KindValue::Tuple(kind_values(ks@)),
        }
    }
}

/// The values of a sequence of types.
pub open spec fn kind_values(s: Seq<ParamKind>) -> Seq<KindValue>
    decreases s, 1nat,
{
    if s.len() == 0 {
        Seq::empty()
    } else {
        kind_values(s.drop_last()).push(s.last().value())
    }
}

/// `kind_values` keeps the length and takes each type's value.
pub proof fn lemma_kind_values(s: Seq<ParamKind>)
    ensures
        kind_values(s).len() == s.len(),
        forall|i: int| 0 <= i < s.len() ==> #[trigger] kind_values(s)[i] == s[i].value(),
    decreases s.len(),
{
    if s.len() > 0 {
        lemma_kind_values(s.drop_last());
    }
}

/// Whether `text` is enclosed as a value of the compound type `k` is
/// written: in brackets for arrays, in parentheses for tuples. (`ethabi`'s
/// tokenizer refuses other texts of these types before it cuts them.)
pub open spec fn enclosed(k: KindValue, text: Seq<char>) -> bool {
    text.len() > 0 && match k {
        KindValue::Array(_) | KindValue::FixedArray(_, _) => text[0] == '[' && text.last() == ']',
        KindValue::Tuple(_) => text[0] == '(' && text.last() == ')',
        _ => false,
    }
}

/// Whether `text` is enclosed as a value of type `k` is written.
pub fn text_enclosed(k: &ParamKind, text: &str) -> (r: bool)
    ensures
        r == enclosed(k.value(), text@),
{
    let n = text.unicode_len();
    if n == 0 {
        return false;
    }
    let first = text.get_char(0);
    let last = text.get_char(n - 1);
    match k {
        ParamKind::Array(_) | ParamKind::FixedArray(_, _) => first == '[' && last == ']',
        ParamKind::Tuple(_) => first == '(' && last == ')',
        _ => false,
    }
}

// ---------------------------------------------------------------------------
// Type names

/// The decimal digit for `d` (below 10).
pub open spec fn digit_char(d: nat) -> char {
    if d == 0 { '0' } else if d == 1 { '1' } else if d == 2 { '2' } else if d == 3 { '3' } else if d == 4 { '4' }
    else if d == 5 { '5' } else if d == 6 { '6' } else if d == 7 { '7' } else if d == 8 { '8' } else { '9' }
}

/// The decimal numeral of `n`, without leading zeros.
pub open spec fn decimal(n: nat) -> Seq<char>
    decreases n,
{
    if n < 10 {
        seq![digit_char(n)]
    } else {
        decimal(n / 10) + seq![digit_char(n % 10)]
    }
}

/// Type names joined by commas.
pub open spec fn join_types(ts: Seq<Seq<char>>) -> Seq<char>
    decreases ts.len(),
{
    if ts.len() == 0 {
        Seq::empty()
    } else if ts.len() == 1 {
        ts[0]
    } else {
        join_types(ts.drop_last()) + seq![','] + ts.last()
    }
}

/// The canonical name of type `k`, as `ethabi` writes it (`ParamType`'s
/// `Display`): `uint256`, `bytes32`, `bool[][2]`, `(int256,string)[]`, ...
pub open spec fn kind_text(k: KindValue) -> Seq<char>
    decreases k, 0nat,
{
    match k {
        KindValue::Address => "address"@,
        KindValue::Bytes => "bytes"@,
        KindValue::Int(n) => "int"@ + decimal(n),
        KindValue::Uint(n) => "uint"@ + decimal(n),
        KindValue::Bool => "bool"@,
        KindValue::Str => "string"@,
        KindValue::Array(inner) => kind_text(*inner) + "[]"@,
        KindValue::FixedBytes(n) => "bytes"@ + decimal(n),
        KindValue::FixedArray(inner, n) => kind_text(*inner) + "["@ + decimal(n) + "]"@,
        KindValue::Tuple(ks) => "("@ + join_types(kind_texts(ks)) + ")"@,
    }
}

/// The names of a sequence of types.
pub open spec fn kind_texts(ks: Seq<KindValue>) -> Seq<Seq<char>>
    decreases ks, 1nat,
{
    if ks.len() == 0 {
        Seq::empty()
    } else {
        kind_texts(ks.drop_last()).push(kind_text(ks.last()))
    }
}

/// `kind_texts` keeps the length and names each type.
pub proof fn lemma_kind_texts(ks: Seq<KindValue>)
    ensures
        kind_texts(ks).len() == ks.len(),
        forall|i: int| 0 <= i < ks.len() ==> #[trigger] kind_texts(ks)[i] == kind_text(ks[i]),
    decreases ks.len(),
{
    if ks.len() > 0 {
        lemma_kind_texts(ks.drop_last());
    }
}

fn digit_text(d: usize) -> (r: &'static str)
    requires
        d < 10,
    ensures
        r@ == seq![digit_char(d as nat)],
{
    proof {
        reveal_strlit("0");
        reveal_strlit("1");
        reveal_strlit("2");
        reveal_strlit("3");
        reveal_strlit("4");
        reveal_strlit("5");
        reveal_strlit("6");
        reveal_strlit("7");
        reveal_strlit("8");
        reveal_strlit("9");
    }
    let r = if d == 0 { "0" } else if d == 1 { "1" } else if d == 2 { "2" } else if d == 3 { "3" } else if d == 4 { "4" }
    else if d == 5 { "5" } else if d == 6 { "6" } else if d == 7 { "7" } else if d == 8 { "8" } else { "9" };
    assert(r@ =~= seq![digit_char(d as nat)]);
    r
}

fn push_decimal(n: usize, out: &mut String)
    ensures
        final(out)@ == old(out)@ + decimal(n as nat),
    decreases n,
{
    if n >= 10 {
        push_decimal(n / 10, out);
    }
    out.append(digit_text(n % 10));
    assert(out@ =~= old(out)@ + decimal(n as nat));
}

/// Appends the canonical name of `k` to `out`.
fn push_kind_text(k: &ParamKind, out: &mut String)
    ensures
        final(out)@ == old(out)@ + kind_text(k.value()),
    decreases k,
{
    proof {
        reveal_strlit("address");
        reveal_strlit("bytes");
        reveal_strlit("int");
        reveal_strlit("uint");
        reveal_strlit("bool");
        reveal_strlit("string");
        reveal_strlit("[]");
        reveal_strlit("[");
        reveal_strlit("]");
        reveal_strlit("(");
        reveal_strlit(")");
        reveal_strlit(",");
    }
    match k {
        ParamKind::Address => out.append("address"),
        ParamKind::Bytes => out.append("bytes"),
        ParamKind::Int(n) => {
            out.append("int");
            push_decimal(*n, out);
        },
        ParamKind::Uint(n) => {
            out.append("uint");
            push_decimal(*n, out);
        },
        ParamKind::Bool => out.append("bool"),
        ParamKind::Str => out.append("string"),
        ParamKind::Array(inner) => {
            push_kind_text(inner, out);
            out.append("[]");
        },
        ParamKind::FixedBytes(n) => {
            out.append("bytes");
            push_decimal(*n, out);
        },
        ParamKind::FixedArray(inner, n) => {
            push_kind_text(inner, out);
            out.append("[");
            push_decimal(*n, out);
            out.append("]");
        },
        ParamKind::Tuple(ks) => {
            out.append("(");
            push_kind_texts(ks, out);
            out.append(")");
        },
    }
    assert(out@ =~= old(out)@ + kind_text(k.value()));
}

/// The canonical name of `k`, as `ethabi` writes it.
pub fn kind_name(k: &ParamKind) -> (r: String)
    ensures
        r@ == kind_text(k.value()),
{
    let mut r = String::new();
    push_kind_text(k, &mut r);
    assert(r@ =~= kind_text(k.value()));
    r
}

/// Appends the names of `ks`, joined by commas, to `out`.
fn push_kind_texts(ks: &Vec<ParamKind>, out: &mut String)
    ensures
        final(out)@ == old(out)@ + join_types(kind_texts(kind_values(ks@))),
    decreases ks,
{
    let ghost start = out@;
    let ghost names = kind_texts(kind_values(ks@));
    proof {
        lemma_kind_values(ks@);
        lemma_kind_texts(kind_values(ks@));
        reveal_strlit(",");
    }
    let n = ks.len();
    for i in 0..n
        invariant
            n == ks@.len(),
            names == kind_texts(kind_values(ks@)),
            names.len() == n,
            forall|j: int| 0 <= j < n ==> #[trigger] names[j] == kind_text(ks@[j].value()),
            out@ == start + join_types(names.take(i as int)),
    {
        proof {
            vstd::std_specs::vec::axiom_vec_index_decreases(*ks, i as int);
            reveal_strlit(",");
        }
        if i > 0 {
            out.append(",");
        }
        push_kind_text(&ks[i], out);
        proof {
            let t = names.take(i + 1);
            assert(t.drop_last() =~= names.take(i as int));
            assert(t.last() == names[i as int]);
            assert(names[i as int] == kind_text(ks@[i as int].value()));
            if i == 0 {
                assert(t.len() == 1);
                assert(join_types(t) == t[0]);
                assert(join_types(names.take(0)) =~= Seq::<char>::empty());
                assert(out@ =~= start + join_types(t));
            } else {
                assert(join_types(t) == join_types(t.drop_last()) + seq![','] + t.last());
                assert(out@ =~= start + join_types(t));
            }
        }
    }
    assert(names.take(n as int) =~= names);
}

/// The names of `ks`, joined by commas.
pub fn join_type_names(ks: &Vec<ParamKind>) -> (r: String)
    ensures
        r@ == join_types(kind_texts(kind_values(ks@))),
{
    let mut r = String::new();
    push_kind_texts(ks, &mut r);
    assert(r@ =~= join_types(kind_texts(kind_values(ks@))));
    r
}

// ---------------------------------------------------------------------------
// Copies

/// A copy of `k`.
pub fn copy_kind(k: &ParamKind) -> (r: ParamKind)
    ensures
        r.value() == k.value(),
    decreases k,
{
    match k {
        ParamKind::Address => ParamKind::Address,
        ParamKind::Bytes => ParamKind::Bytes,
        ParamKind::Int(n) => ParamKind::Int(*n),
        ParamKind::Uint(n) => ParamKind::Uint(*n),
        ParamKind::Bool => ParamKind::Bool,
        ParamKind::Str => ParamKind::Str,
        ParamKind::Array(inner) => ParamKind::Array(Box::new(copy_kind(inner))),
        ParamKind::FixedBytes(n) => ParamKind::FixedBytes(*n),
        ParamKind::FixedArray(inner, n) => ParamKind::FixedArray(Box::new(copy_kind(inner)), *n),
        ParamKind::Tuple(ks) => ParamKind::Tuple(copy_kinds(ks)),
    }
}

/// A copy of `ks`.
pub fn copy_kinds(ks: &Vec<ParamKind>) -> (r: Vec<ParamKind>)
    ensures
        kind_values(r@) == kind_values(ks@),
    decreases ks,
{
    proof {
        lemma_kind_values(ks@);
    }
    let mut r: Vec<ParamKind> = Vec::new();
    let n = ks.len();
    for i in 0..n
        invariant
            n == ks@.len(),
            kind_values(ks@).len() == n,
            forall|j: int| 0 <= j < n ==> #[trigger] kind_values(ks@)[j] == ks@[j].value(),
            r@.len() == i,
            forall|j: int| 0 <= j < i ==> #[trigger] r@[j].value() == ks@[j].value(),
    {
        proof {
            vstd::std_specs::vec::axiom_vec_index_decreases(*ks, i as int);
        }
        r.push(copy_kind(&ks[i]));
    }
    proof {
        lemma_kind_values(r@);
    }
    assert(kind_values(r@) =~= kind_values(ks@));
    r
}

// ---------------------------------------------------------------------------
// Tuple arity

/// Whether the value `t`, checked against type `k` as `ethabi`'s
/// `Token::type_check` walks it, never holds a tuple with more entries than
/// the tuple type it is checked against.
pub open spec fn fits(t: TokenValue, k: KindValue) -> bool
    decreases t, 0nat,
{
    match t {
        TokenValue::Array(ts) => match k {
            KindValue::Array(inner) => all_fit(ts, *inner),
            _ => true,
        },
        TokenValue::FixedArray(ts) => match k {
            KindValue::FixedArray(inner, _) => all_fit(ts, *inner),
            _ => true,
        },
        TokenValue::Tuple(ts) => match k {
            KindValue::Tuple(ks) => pairwise_fit(ts, ks),
            _ => true,
        },
        _ => true,
    }
}

/// Every value of `ts` fits type `k`.
pub open spec fn all_fit(ts: Seq<TokenValue>, k: KindValue) -> bool
    decreases ts, 1nat,
{
    ts.len() == 0 || (all_fit(ts.drop_last(), k) && fits(ts.last(), k))
}

/// There are no more values in `ts` than types in `ks`, and each value fits
/// the type at its position.
pub open spec fn pairwise_fit(ts: Seq<TokenValue>, ks: Seq<KindValue>) -> bool
    decreases ts, 1nat,
{
    ts.len() <= ks.len() && (ts.len() == 0 || (pairwise_fit(ts.drop_last(), ks) && fits(ts.last(), ks[ts.len() - 1])))
}

// ---------------------------------------------------------------------------
// Sizes of fixed byte strings

/// Whether every fixed-size byte string type within `k` has at most `limit` bytes.
pub open spec fn fixed_bytes_within(k: KindValue, limit: nat) -> bool
    decreases k, 0nat,
{
    match k {
        KindValue::FixedBytes(n) => n <= limit,
        KindValue::Array(inner) => fixed_bytes_within(*inner, limit),
        KindValue::FixedArray(inner, _) => fixed_bytes_within(*inner, limit),
        KindValue::Tuple(ks) => all_fixed_bytes_within(ks, limit),
        _ => true,
    }
}

/// Whether every fixed-size byte string type within the types `ks` has at
/// most `limit` bytes.
pub open spec fn all_fixed_bytes_within(ks: Seq<KindValue>, limit: nat) -> bool
    decreases ks, 1nat,
{
    ks.len() == 0 || (all_fixed_bytes_within(ks.drop_last(), limit) && fixed_bytes_within(ks.last(), limit))
}

/// Whether every fixed-size byte string type within `k` has at most `limit` bytes.
pub fn kind_fixed_bytes_within(k: &ParamKind, limit: usize) -> (r: bool)
    ensures
        r == fixed_bytes_within(k.value(), limit as nat),
    decreases k,
{
    match k {
        ParamKind::FixedBytes(n) => *n <= limit,
        ParamKind::Array(inner) => kind_fixed_bytes_within(inner, limit),
        ParamKind::FixedArray(inner, _) => kind_fixed_bytes_within(inner, limit),
        ParamKind::Tuple(ks) => kinds_fixed_bytes_within(ks, limit),
        _ => true,
    }
}

/// Whether every fixed-size byte string type within the types `ks` has at
/// most `limit` bytes.
pub fn kinds_fixed_bytes_within(ks: &Vec<ParamKind>, limit: usize) -> (r: bool)
    ensures
        r == all_fixed_bytes_within(kind_values(ks@), limit as nat),
    decreases ks,
{
    proof {
        lemma_kind_values(ks@);
    }
    let ghost vs = kind_values(ks@);
    let n = ks.len();
    for i in 0..n
        invariant
            n == ks@.len(),
            vs == kind_values(ks@),
            vs.len() == n,
            forall|j: int| 0 <= j < n ==> #[trigger] vs[j] == ks@[j].value(),
            all_fixed_bytes_within(vs.take(i as int), limit as nat),
    {
        proof {
            vstd::std_specs::vec::axiom_vec_index_decreases(*ks, i as int);
        }
        assert(vs.take(i + 1).drop_last() =~= vs.take(i as int));
        assert(vs.take(i + 1).last() == vs[i as int]);
        if !kind_fixed_bytes_within(&ks[i], limit) {
            proof {
                lemma_fixed_bytes_prefix(vs, limit as nat, i + 1, n as int);
                assert(vs.take(n as int) =~= vs);
            }
            return false;
        }
    }
    assert(vs.take(n as int) =~= vs);
    true
}

/// A prefix of types that exceeds the limit spoils every longer prefix.
proof fn lemma_fixed_bytes_prefix(vs: Seq<KindValue>, limit: nat, m: int, n: int)
    requires
        0 <= m <= n <= vs.len(),
        !all_fixed_bytes_within(vs.take(m), limit),
    ensures
        !all_fixed_bytes_within(vs.take(n), limit),
    decreases n - m,
{
    if m < n {
        lemma_fixed_bytes_prefix(vs, limit, m, n - 1);
        assert(vs.take(n).drop_last() =~= vs.take(n - 1));
    }
}

} // verus!
