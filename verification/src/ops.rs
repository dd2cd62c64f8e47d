//! What the built-in types do: names, texts, hashes, equality, arithmetic
//! and the container operations, each stated over the values' views.
use vstd::prelude::*;
use vstd::string::StringExecFns;
use vstd::utf8::encode_utf8;
use crate::objects::{
    Dict, ExcData, ExcKind, HashIndex, SValue, Value, entries_view, index_contents, lemma_entries_view_len,
    lemma_entries_view_push,
    lemma_values_view_len, value_view, values_view,
};
use crate::parser::Position;
use crate::text::push_char;

verus! {

// ---------------------------------------------------------------------------
// Names and exceptions.
pub open spec fn zero_pos() -> Position {
    Position { startcol: 0, endcol: 0, line: 0 }
}

/// An exception of kind `kind` whose message object is the string `msg`,
/// with no source range.
pub open spec fn exc_value(kind: ExcKind, msg: Seq<char>) -> SValue {
    SValue::Exc(kind, msg, zero_pos(), zero_pos())
}

pub open spec fn exc_typename(k: ExcKind) -> Seq<char> {
    match k {
        ExcKind::Exception => "Exception"@,
        ExcKind::NameExc => "NameExc"@,
        ExcKind::OverflowExc => "OverflowExc"@,
        ExcKind::MethodNotDefinedExc => "MethodNotDefinedExc"@,
        ExcKind::TypeMismatchExc => "TypeMismatchExc"@,
        ExcKind::KeyNotFoundExc => "KeyNotFoundExc"@,
        ExcKind::ValueExc => "ValueExc"@,
        ExcKind::DivisionByZeroExc => "DivisionByZeroExc"@,
        ExcKind::AttrExc => "AttrExc"@,
    }
}

/// The name of the type of a value.
pub open spec fn spec_typename(v: SValue) -> Seq<char> {
    match v {
        SValue::NoneObject => "NoneType"@,
        SValue::Bool(_) => "bool"@,
        SValue::Int(_) => "int"@,
        SValue::Str(_) => "str"@,
        SValue::List(_) => "list"@,
        SValue::Dict(_) => "dict"@,
        SValue::Code(_) => "code"@,
        SValue::Fn(_, _, _, _) => "fn"@,
        SValue::Exc(k, _, _, _) => exc_typename(k),
    }
}

fn text(s: &str) -> (r: String)
    ensures
        r@ == s@,
{
    s.to_owned()
}

/// `a`, then `b`, then `c`.
pub fn concat3(a: &str, b: &str, c: &str) -> (r: String)
    ensures
        r@ == a@ + b@ + c@,
{
    let mut r = a.to_owned();
    r.append(b);
    r.append(c);
    r
}

pub fn exc_typename_of(k: ExcKind) -> (r: String)
    ensures
        r@ == exc_typename(k),
{
    match k {
        ExcKind::Exception => text("Exception"),
        ExcKind::NameExc => text("NameExc"),
        ExcKind::OverflowExc => text("OverflowExc"),
        ExcKind::MethodNotDefinedExc => text("MethodNotDefinedExc"),
        ExcKind::TypeMismatchExc => text("TypeMismatchExc"),
        ExcKind::KeyNotFoundExc => text("KeyNotFoundExc"),
        ExcKind::ValueExc => text("ValueExc"),
        ExcKind::DivisionByZeroExc => text("DivisionByZeroExc"),
        ExcKind::AttrExc => text("AttrExc"),
    }
}

/// The name of the type of `v`.
pub fn typename(v: &Value) -> (r: String)
    ensures
        r@ == spec_typename(v@),
{
    match v {
        Value::NoneObject => text("NoneType"),
        Value::Bool(_) => text("bool"),
        Value::Int(_) => text("int"),
        Value::Str(_) => text("str"),
        Value::List(_) => text("list"),
        Value::Dict(_) => text("dict"),
        Value::Code(_) => text("code"),
        Value::Fn(_) => text("fn"),
        Value::Exc(e) => exc_typename_of(e.kind),
    }
}

/// An exception of kind `kind` with message `msg` and no source range.
pub fn exc_from_str(kind: ExcKind, msg: String) -> (r: Value)
    ensures
        r@ == exc_value(kind, msg@),
{
    Value::Exc(Box::new(ExcData { kind, msg, start: Position::zero(), end: Position::zero() }))
}

/// The message of the exception raised when type `tname` lacks method
/// `method`.
pub open spec fn not_defined_msg(method: Seq<char>, tname: Seq<char>) -> Seq<char> {
    "Method '"@ + method + "' is not defined for '"@ + tname + "' type"@
}

pub fn not_defined(method: &str, v: &Value) -> (r: Value)
    ensures
        r@ == exc_value(ExcKind::MethodNotDefinedExc, not_defined_msg(method@, spec_typename(v@))),
{
    let t = typename(v);
    let mut m = concat3("Method '", method, "' is not defined for '");
    m.append(t.as_str());
    m.append("' type");
    proof {
        assert(m@ =~= not_defined_msg(method@, spec_typename(v@)));
    }
    exc_from_str(ExcKind::MethodNotDefinedExc, m)
}

// ---------------------------------------------------------------------------
// Decimal text of integers.
pub open spec fn digit_char(d: int) -> char {
    (d + 48) as char
}

pub open spec fn digits_of(n: nat) -> Seq<char>
    decreases n,
{
    if n < 10 {
        seq![digit_char(n as int)]
    } else {
        digits_of(n / 10).push(digit_char((n % 10) as int))
    }
}

/// The decimal text of `x`, with a `-` before a negative number.
pub open spec fn spec_itoa(x: int) -> Seq<char> {
    if x < 0 {
        seq!['-'] + digits_of((-x) as nat)
    } else {
        digits_of(x as nat)
    }
}

fn push_digits(s: &mut String, n: u128)
    ensures
        final(s)@ == old(s)@ + digits_of(n as nat),
    decreases n,
{
    if n >= 10 {
        push_digits(s, n / 10);
    }
    let d: u8 = (n % 10) as u8;
    let c: char = (d + 48) as char;
    assert(c == digit_char((n % 10) as int));
    push_char(s, c);
    proof {
        if n >= 10 {
            assert(final(s)@ =~= old(s)@ + digits_of(n as nat));
        } else {
            assert(final(s)@ =~= old(s)@ + digits_of(n as nat));
        }
    }
}

/// The decimal text of `n`.
pub fn uint_to_string(n: u128) -> (r: String)
    ensures
        r@ == digits_of(n as nat),
{
    let mut s = String::new();
    push_digits(&mut s, n);
    proof {
        assert(s@ =~= digits_of(n as nat));
    }
    s
}

/// The decimal text of `x` (`isize::to_string`).
pub fn int_to_string(x: isize) -> (r: String)
    ensures
        r@ == spec_itoa(x as int),
{
    let mut s = String::new();
    if x < 0 {
        push_char(&mut s, '-');
        let n: u128 = (-(x as i128)) as u128;
        push_digits(&mut s, n);
        proof {
            assert(s@ =~= spec_itoa(x as int));
        }
    } else {
        push_digits(&mut s, x as u128);
        proof {
            assert(s@ =~= spec_itoa(x as int));
        }
    }
    s
}

// ---------------------------------------------------------------------------
// Hashes.

/// What `DefaultHasher` gives for an `isize`. It is fixed within one build;
/// it may differ between Rust releases, between 32-bit and 64-bit targets
/// and between byte orders.
pub uninterp spec fn sip_hash_isize(x: isize) -> u64;

/// What `DefaultHasher` gives for a string. It is fixed within one build;
/// it may differ between Rust releases.
pub uninterp spec fn sip_hash_str(s: Seq<char>) -> u64;

/// Hashes `x` with a `DefaultHasher` made by `DefaultHasher::new` (its
/// `hash` then `finish`). The standard library documents that all hashers
/// made by `new` are the same, so the result is a function of `x`; what
/// that function is, is not stated.
#[verifier::external_body]
fn default_hash_isize(x: isize) -> (r: u64)
    ensures
        r == sip_hash_isize(x),
{
    let mut h = std::collections::hash_map::DefaultHasher::new();
    std::hash::Hash::hash(&x, &mut h);
    std::hash::Hasher::finish(&h)
}

/// Hashes the string `s` with a `DefaultHasher` made by
/// `DefaultHasher::new`; as for `default_hash_isize`, only that the result
/// is a function of the text is stated.
#[verifier::external_body]
fn default_hash_str(s: &String) -> (r: u64)
    ensures
        r == sip_hash_str(s@),
{
    let mut h = std::collections::hash_map::DefaultHasher::new();
    std::hash::Hash::hash(s, &mut h);
    std::hash::Hasher::finish(&h)
}

/// The hash of a string: from its UTF-8 bytes, the first plus the last plus
/// the length for two to 256 bytes, the byte for one, 0 for none, and the
/// `DefaultHasher` hash past 256 bytes.
pub open spec fn str_hash(s: Seq<char>) -> int {
    let b = encode_utf8(s);
    if b.len() > 256 {
        sip_hash_str(s) as isize as int
    } else if b.len() == 0 {
        0
    } else if b.len() == 1 {
        b[0] as int
    } else {
        b[0] + b[b.len() - 1] + b.len()
    }
}

/// The hash of a value, or the exception for a type with no `hash`.
pub open spec fn spec_hash(v: SValue) -> Result<int, SValue> {
    match v {
        SValue::Int(x) => Ok(sip_hash_isize(x) as isize as int),
        SValue::Bool(b) => Ok(if b { 1int } else { 0int }),
        SValue::NoneObject => Ok(-2),
        SValue::Str(s) => Ok(str_hash(s)),
        SValue::Exc(_, _, _, _) => Ok(-2),
        _ => Err(exc_value(ExcKind::MethodNotDefinedExc, not_defined_msg("hash"@, spec_typename(v)))),
    }
}

pub fn string_hash(s: &String) -> (r: isize)
    ensures
        r == str_hash(s@),
{
    let b = s.as_str().as_bytes();
    let n: usize = b.len();
    if n > 256 {
        default_hash_str(s) as isize
    } else if n == 0 {
        0
    } else if n == 1 {
        b[0] as isize
    } else {
        b[0] as isize + b[n - 1] as isize + n as isize
    }
}

/// The hash of `v` (the `hash` method of its type).
pub fn hash_value(v: &Value) -> (r: Result<isize, Value>)
    ensures
        match spec_hash(v@) {
            Ok(h) => r == Ok::<isize, Value>(h as isize),
            Err(e) => r is Err && r->Err_0@ == e,
        },
{
    match v {
        Value::Int(x) => Ok(default_hash_isize(*x) as isize),
        Value::Bool(b) => Ok(if *b { 1 } else { 0 }),
        Value::NoneObject => Ok(-2),
        Value::Str(s) => Ok(string_hash(s)),
        Value::Exc(_) => Ok(-2),
        _ => Err(not_defined("hash", v)),
    }
}

// ---------------------------------------------------------------------------
// Texts: `repr` (`as_str` false) and `str` (`as_str` true).

/// The text of a value: its `repr`, or its `str` when `as_str`.
pub open spec fn spec_text(v: SValue, as_str: bool) -> Seq<char>
    decreases v, 0nat,
{
    match v {
        SValue::NoneObject => "None"@,
        SValue::Bool(b) => if b {
            "true"@
        } else {
            "false"@
        },
        SValue::Int(x) => spec_itoa(x as int),
        SValue::Str(t) => if as_str {
            t
        } else {
            "\""@ + t + "\""@
        },
        SValue::List(xs) => "["@ + items_text(xs) + "]"@,
        SValue::Dict(es) => "{"@ + entries_text(es, as_str) + "}"@,
        SValue::Code(_) => "<code object>"@,
        SValue::Fn(_, _, _, name) => "<fn '"@ + name + "'>"@,
        SValue::Exc(k, msg, _, _) => if k == ExcKind::Exception {
            "Exception<>"@
        } else if as_str {
            msg
        } else {
            exc_typename(k) + ": \""@ + msg + "\""@
        },
    }
}

/// The `repr`s of `xs`, separated by `, `.
pub open spec fn items_text(xs: Seq<SValue>) -> Seq<char>
    decreases xs, 0nat,
{
    if xs.len() == 0 {
        seq![]
    } else if xs.len() == 1 {
        spec_text(xs[0], false)
    } else {
        items_text(xs.drop_last()) + ", "@ + spec_text(xs.last(), false)
    }
}

/// `key: value` for each entry, separated by `, `.
pub open spec fn entries_text(es: Seq<(SValue, SValue)>, as_str: bool) -> Seq<char>
    decreases es, 0nat,
{
    if es.len() == 0 {
        seq![]
    } else if es.len() == 1 {
        spec_text(es[0].0, as_str) + ": "@ + spec_text(es[0].1, as_str)
    } else {
        entries_text(es.drop_last(), as_str) + ", "@ + spec_text(es.last().0, as_str) + ": "@
            + spec_text(es.last().1, as_str)
    }
}

pub open spec fn spec_repr(v: SValue) -> Seq<char> {
    spec_text(v, false)
}

pub open spec fn spec_str(v: SValue) -> Seq<char> {
    spec_text(v, true)
}

/// The text of `v` (its `repr`, or its `str` when `as_str`).
pub fn text_of(v: &Value, as_str: bool) -> (r: String)
    ensures
        r@ == spec_text(v@, as_str),
    decreases v,
{
    match v {
        Value::NoneObject => text("None"),
        Value::Bool(b) => if *b {
            text("true")
        } else {
            text("false")
        },
        Value::Int(x) => int_to_string(*x),
        Value::Str(t) => if as_str {
            t.clone()
        } else {
            concat3("\"", t.as_str(), "\"")
        },
        Value::List(l) => {
            let out = items_text_of(l);
            concat3("[", out.as_str(), "]")
        },
        Value::Dict(d) => {
            let out = entries_text_of(&d.entries, as_str);
            concat3("{", out.as_str(), "}")
        },
        Value::Code(_) => text("<code object>"),
        Value::Fn(f) => concat3("<fn '", f.name.as_str(), "'>"),
        Value::Exc(e) => {
            if e.kind == ExcKind::Exception {
                text("Exception<>")
            } else if as_str {
                e.msg.clone()
            } else {
                let t = exc_typename_of(e.kind);
                let mut r = concat3(t.as_str(), ": \"", e.msg.as_str());
                r.append("\"");
                r
            }
        },
    }
}

/// The `repr`s of the items of `l`, separated by `, `.
fn items_text_of(l: &Vec<Value>) -> (out: String)
    ensures
        out@ == items_text(values_view(l@)),
    decreases l,
{
    let ghost xs = values_view(l@);
    proof {
        lemma_values_view_len(l@);
    }
    let mut out = String::new();
    let mut i: usize = 0;
    proof {
        assert(xs.subrange(0, 0) =~= seq![]);
    }
    while i < l.len()
        invariant
            xs == values_view(l@),
            xs.len() == l.len(),
            forall|j: int| 0 <= j < l.len() ==> #[trigger] xs[j] == value_view(l@[j]),
            i <= l.len(),
            out@ == items_text(xs.subrange(0, i as int)),
        decreases l.len() - i,
    {
        let t = text_of(&l[i], false);
        proof {
            assert(xs.subrange(0, i + 1).drop_last() =~= xs.subrange(0, i as int));
            assert(xs.subrange(0, i + 1).last() == xs[i as int]);
        }
        if i > 0 {
            out.append(", ");
        }
        out.append(t.as_str());
        i = i + 1;
    }
    proof {
        assert(xs.subrange(0, i as int) =~= xs);
    }
    out
}

/// `key: value` for each entry, separated by `, `.
fn entries_text_of(entries: &Vec<(Value, Value)>, as_str: bool) -> (out: String)
    ensures
        out@ == entries_text(entries_view(entries@), as_str),
    decreases entries,
{
    let ghost es = entries_view(entries@);
    proof {
        lemma_entries_view_len(entries@);
    }
    let mut out = String::new();
    let mut i: usize = 0;
    proof {
        assert(es.subrange(0, 0) =~= seq![]);
    }
    while i < entries.len()
        invariant
            es == entries_view(entries@),
            es.len() == entries.len(),
            forall|j: int|
                0 <= j < entries.len() ==> #[trigger] es[j] == (
                    value_view(entries@[j].0),
                    value_view(entries@[j].1),
                ),
            i <= entries.len(),
            out@ == entries_text(es.subrange(0, i as int), as_str),
        decreases entries.len() - i,
    {
        let k = text_of(&entries[i].0, as_str);
        let w = text_of(&entries[i].1, as_str);
        proof {
            assert(es.subrange(0, i + 1).drop_last() =~= es.subrange(0, i as int));
            assert(es.subrange(0, i + 1).last() == es[i as int]);
        }
        if i > 0 {
            out.append(", ");
        }
        out.append(k.as_str());
        out.append(": ");
        out.append(w.as_str());
        i = i + 1;
    }
    proof {
        assert(es.subrange(0, i as int) =~= es);
    }
    out
}

/// The `repr` of `v`.
pub fn object_repr(v: &Value) -> (r: String)
    ensures
        r@ == spec_repr(v@),
{
    text_of(v, false)
}

/// The `str` of `v`.
pub fn object_str(v: &Value) -> (r: String)
    ensures
        r@ == spec_str(v@),
{
    text_of(v, true)
}

// ---------------------------------------------------------------------------
// Equality.

/// What `eq` gives for `a == b`: a truth value, or an exception.
///
/// Values of the scalar types compare by content, and are unequal to values
/// of other types; `None` and exceptions compare by type. A list compared
/// with a value of another type raises; a dictionary is then unequal to it.
/// Lists and dictionaries of the same length walk their items in order and
/// stop, answering `false`, at the first item pair that compares equal, and
/// answer `true` when no pair does.
pub open spec fn spec_eq(a: SValue, b: SValue) -> Result<bool, SValue>
    decreases a, 0nat,
{
    match a {
        SValue::NoneObject => Ok(b is NoneObject),
        SValue::Bool(x) => Ok(b matches SValue::Bool(y) && x == y),
        SValue::Int(x) => Ok(b matches SValue::Int(y) && x == y),
        SValue::Str(x) => Ok(b matches SValue::Str(y) && x == y),
        SValue::Code(_) => Ok(b is Code),
        SValue::Fn(_, args, idx, name) => Ok(
            b matches SValue::Fn(_, args2, idx2, name2) && args == args2 && idx == idx2 && name == name2,
        ),
        SValue::Exc(k, _, _, _) => Ok(b matches SValue::Exc(k2, _, _, _) && k == k2),
        SValue::List(xs) => match b {
            SValue::List(ys) => if xs.len() != ys.len() {
                Ok(false)
            } else {
                list_eq_from(xs, ys, 0)
            },
            _ => Err(exc_value(ExcKind::TypeMismatchExc, "Types do not match"@)),
        },
        SValue::Dict(es) => match b {
            SValue::Dict(fs) => if es.len() != fs.len() {
                Ok(false)
            } else {
                dict_eq_from(es, fs, 0)
            },
            _ => Ok(false),
        },
    }
}

pub open spec fn list_eq_from(xs: Seq<SValue>, ys: Seq<SValue>, i: nat) -> Result<bool, SValue>
    decreases xs, xs.len() - i,
{
    if i >= xs.len() || i >= ys.len() {
        Ok(true)
    } else {
        match spec_eq(xs[i as int], ys[i as int]) {
            Err(e) => Err(e),
            Ok(true) => Ok(false),
            Ok(false) => list_eq_from(xs, ys, i + 1),
        }
    }
}

pub open spec fn dict_eq_from(es: Seq<(SValue, SValue)>, fs: Seq<(SValue, SValue)>, i: nat) -> Result<bool, SValue>
    decreases es, es.len() - i,
{
    if i >= es.len() || i >= fs.len() {
        Ok(true)
    } else {
        match spec_eq(es[i as int].0, fs[i as int].0) {
            Err(e) => Err(e),
            Ok(true) => Ok(false),
            Ok(false) => match spec_eq(es[i as int].1, fs[i as int].1) {
                Err(e) => Err(e),
                Ok(true) => Ok(false),
                Ok(false) => dict_eq_from(es, fs, i + 1),
            },
        }
    }
}

pub open spec fn eq_res(s: Result<bool, SValue>, r: Result<bool, Value>) -> bool {
    match s {
        Ok(b) => r == Ok::<bool, Value>(b),
        Err(e) => r is Err && r->Err_0@ == e,
    }
}

fn strings_eq(a: &Vec<String>, b: &Vec<String>) -> (r: bool)
    ensures
        r == (a@.map_values(|x: String| x@) == b@.map_values(|x: String| x@)),
{
    let ghost sa = a@.map_values(|x: String| x@);
    let ghost sb = b@.map_values(|x: String| x@);
    if a.len() != b.len() {
        assert(sa.len() != sb.len());
        return false;
    }
    let mut i: usize = 0;
    while i < a.len()
        invariant
            sa == a@.map_values(|x: String| x@),
            sb == b@.map_values(|x: String| x@),
            a.len() == b.len(),
            i <= a.len(),
            forall|j: int| 0 <= j < i ==> sa[j] == sb[j],
        decreases a.len() - i,
    {
        if a[i] != b[i] {
            assert(sa[i as int] != sb[i as int]);
            return false;
        }
        i = i + 1;
    }
    assert(sa =~= sb);
    true
}

fn ints_eq(a: &Vec<isize>, b: &Vec<isize>) -> (r: bool)
    ensures
        r == (a@ == b@),
{
    if a.len() != b.len() {
        return false;
    }
    let mut i: usize = 0;
    while i < a.len()
        invariant
            a.len() == b.len(),
            i <= a.len(),
            forall|j: int| 0 <= j < i ==> a@[j] == b@[j],
        decreases a.len() - i,
    {
        if a[i] != b[i] {
            return false;
        }
        i = i + 1;
    }
    assert(a@ =~= b@);
    true
}

/// `a == b` by the `eq` method of `a`'s type.
pub fn value_eq(a: &Value, b: &Value) -> (r: Result<bool, Value>)
    ensures
        eq_res(spec_eq(a@, b@), r),
    decreases a,
{
    match a {
        Value::NoneObject => Ok(matches!(b, Value::NoneObject)),
        Value::Bool(x) => match b {
            Value::Bool(y) => Ok(*x == *y),
            _ => Ok(false),
        },
        Value::Int(x) => match b {
            Value::Int(y) => Ok(*x == *y),
            _ => Ok(false),
        },
        Value::Str(x) => match b {
            Value::Str(y) => Ok(*x == *y),
            _ => Ok(false),
        },
        Value::Code(_) => Ok(matches!(b, Value::Code(_))),
        Value::Fn(f) => match b {
            Value::Fn(g) => Ok(strings_eq(&f.args, &g.args) && ints_eq(&f.indices, &g.indices) && f.name == g.name),
            _ => Ok(false),
        },
        Value::Exc(e) => match b {
            Value::Exc(e2) => Ok(e.kind == e2.kind),
            _ => Ok(false),
        },
        Value::List(xs) => match b {
            Value::List(ys) => {
                proof {
                    lemma_values_view_len(xs@);
                    lemma_values_view_len(ys@);
                }
                if xs.len() != ys.len() {
                    Ok(false)
                } else {
                    list_eq_exec(xs, ys)
                }
            },
            _ => Err(exc_from_str(ExcKind::TypeMismatchExc, text("Types do not match"))),
        },
        Value::Dict(d) => match b {
            Value::Dict(d2) => {
                proof {
                    lemma_entries_view_len(d.entries@);
                    lemma_entries_view_len(d2.entries@);
                }
                if d.entries.len() != d2.entries.len() {
                    Ok(false)
                } else {
                    dict_eq_exec(&d.entries, &d2.entries)
                }
            },
            _ => Ok(false),
        },
    }
}

fn list_eq_exec(xs: &Vec<Value>, ys: &Vec<Value>) -> (r: Result<bool, Value>)
    ensures
        eq_res(list_eq_from(values_view(xs@), values_view(ys@), 0), r),
    decreases xs,
{
    proof {
        lemma_values_view_len(xs@);
        lemma_values_view_len(ys@);
    }
    let mut i: usize = 0;
    while i < xs.len() && i < ys.len()
        invariant
            values_view(xs@).len() == xs.len(),
            values_view(ys@).len() == ys.len(),
            forall|j: int| 0 <= j < xs.len() ==> #[trigger] values_view(xs@)[j] == value_view(xs@[j]),
            forall|j: int| 0 <= j < ys.len() ==> #[trigger] values_view(ys@)[j] == value_view(ys@[j]),
            i <= xs.len(),
            list_eq_from(values_view(xs@), values_view(ys@), 0) == list_eq_from(
                values_view(xs@),
                values_view(ys@),
                i as nat,
            ),
        decreases xs.len() - i,
    {
        assert(values_view(xs@)[i as int] == xs@[i as int]@);
        assert(values_view(ys@)[i as int] == ys@[i as int]@);
        match value_eq(&xs[i], &ys[i]) {
            Err(e) => {
                return Err(e);
            },
            Ok(true) => {
                return Ok(false);
            },
            Ok(false) => {},
        }
        i = i + 1;
    }
    Ok(true)
}

fn dict_eq_exec(es: &Vec<(Value, Value)>, fs: &Vec<(Value, Value)>) -> (r: Result<bool, Value>)
    ensures
        eq_res(dict_eq_from(entries_view(es@), entries_view(fs@), 0), r),
    decreases es,
{
    proof {
        lemma_entries_view_len(es@);
        lemma_entries_view_len(fs@);
    }
    let mut i: usize = 0;
    while i < es.len() && i < fs.len()
        invariant
            entries_view(es@).len() == es.len(),
            entries_view(fs@).len() == fs.len(),
            forall|j: int|
                0 <= j < es.len() ==> #[trigger] entries_view(es@)[j] == (value_view(es@[j].0), value_view(es@[j].1)),
            forall|j: int|
                0 <= j < fs.len() ==> #[trigger] entries_view(fs@)[j] == (value_view(fs@[j].0), value_view(fs@[j].1)),
            i <= es.len(),
            dict_eq_from(entries_view(es@), entries_view(fs@), 0) == dict_eq_from(
                entries_view(es@),
                entries_view(fs@),
                i as nat,
            ),
        decreases es.len() - i,
    {
        assert(entries_view(es@)[i as int] == (value_view(es@[i as int].0), value_view(es@[i as int].1)));
        assert(entries_view(fs@)[i as int] == (value_view(fs@[i as int].0), value_view(fs@[i as int].1)));
        match value_eq(&es[i].0, &fs[i].0) {
            Err(e) => {
                return Err(e);
            },
            Ok(true) => {
                return Ok(false);
            },
            Ok(false) => {},
        }
        match value_eq(&es[i].1, &fs[i].1) {
            Err(e) => {
                return Err(e);
            },
            Ok(true) => {
                return Ok(false);
            },
            Ok(false) => {},
        }
        i = i + 1;
    }
    Ok(true)
}

// ---------------------------------------------------------------------------
// Integer arithmetic.

/// The arithmetic operations of `int`.
#[derive(Clone, Copy, PartialEq, Eq, Structural, Debug)]
pub enum ArithOp {
    Add,
    Sub,
    Mul,
    Div,
}

pub open spec fn arith_name(op: ArithOp) -> Seq<char> {
    match op {
        ArithOp::Add => "add"@,
        ArithOp::Sub => "sub"@,
        ArithOp::Mul => "mul"@,
        ArithOp::Div => "div"@,
    }
}

pub open spec fn overflow_msg(op: ArithOp) -> Seq<char> {
    match op {
        ArithOp::Add => "int addition overflow"@,
        ArithOp::Sub => "int subtraction overflow"@,
        ArithOp::Mul => "int multiplication overflow"@,
        ArithOp::Div => "int division overflow"@,
    }
}

/// `x op y` on machine integers: `None` where the result does not fit (or
/// the divisor is 0). Division truncates toward zero.
pub open spec fn checked(op: ArithOp, x: isize, y: isize) -> Option<isize> {
    match op {
        ArithOp::Add => x.checked_add(y),
        ArithOp::Sub => x.checked_sub(y),
        ArithOp::Mul => x.checked_mul(y),
        ArithOp::Div => x.checked_div(y),
    }
}

/// What `int`'s `op` method gives for `x op b`.
pub open spec fn spec_int_arith(op: ArithOp, x: isize, b: SValue) -> Result<SValue, SValue> {
    match b {
        SValue::Int(y) => if op == ArithOp::Div && y == 0 {
            Err(exc_value(ExcKind::DivisionByZeroExc, "Division by 0"@))
        } else {
            match checked(op, x, y) {
                Some(r) => Ok(SValue::Int(r)),
                None => Err(exc_value(ExcKind::OverflowExc, overflow_msg(op))),
            }
        },
        _ => Err(exc_value(ExcKind::TypeMismatchExc, "Types do not match"@)),
    }
}

pub open spec fn value_res(s: Result<SValue, SValue>, r: Result<Value, Value>) -> bool {
    match s {
        Ok(v) => r is Ok && r->Ok_0@ == v,
        Err(e) => r is Err && r->Err_0@ == e,
    }
}

/// `x op b` by `int`'s method.
pub fn int_arith(op: ArithOp, x: isize, b: &Value) -> (r: Result<Value, Value>)
    ensures
        value_res(spec_int_arith(op, x, b@), r),
{
    match b {
        Value::Int(y) => {
            if op == ArithOp::Div && *y == 0 {
                return Err(exc_from_str(ExcKind::DivisionByZeroExc, text("Division by 0")));
            }
            let res = match op {
                ArithOp::Add => x.checked_add(*y),
                ArithOp::Sub => x.checked_sub(*y),
                ArithOp::Mul => x.checked_mul(*y),
                ArithOp::Div => x.checked_div(*y),
            };
            match res {
                Some(v) => Ok(Value::Int(v)),
                None => {
                    let m = match op {
                        ArithOp::Add => text("int addition overflow"),
                        ArithOp::Sub => text("int subtraction overflow"),
                        ArithOp::Mul => text("int multiplication overflow"),
                        ArithOp::Div => text("int division overflow"),
                    };
                    Err(exc_from_str(ExcKind::OverflowExc, m))
                },
            }
        },
        _ => Err(exc_from_str(ExcKind::TypeMismatchExc, text("Types do not match"))),
    }
}

/// `int`'s `neg`: `-x`, unless `x` is the least `isize`.
pub open spec fn spec_int_neg(x: isize) -> Result<SValue, SValue> {
    if x == isize::MIN {
        Err(exc_value(ExcKind::OverflowExc, "int negation overflow (value is i128 minimum)"@))
    } else {
        Ok(SValue::Int((-x) as isize))
    }
}

pub fn int_neg(x: isize) -> (r: Result<Value, Value>)
    ensures
        value_res(spec_int_neg(x), r),
{
    if x == isize::MIN {
        Err(exc_from_str(ExcKind::OverflowExc, text("int negation overflow (value is i128 minimum)")))
    } else {
        Ok(Value::Int(-x))
    }
}

/// `int`'s `abs`: `|x|`, unless `x` is the least `isize`.
pub open spec fn spec_int_abs(x: isize) -> Result<SValue, SValue> {
    if x == isize::MIN {
        Err(exc_value(ExcKind::OverflowExc, "int absolute value overflow (value is i128 minimum)"@))
    } else if x < 0 {
        Ok(SValue::Int((-x) as isize))
    } else {
        Ok(SValue::Int(x))
    }
}

pub fn int_abs(x: isize) -> (r: Result<Value, Value>)
    ensures
        value_res(spec_int_abs(x), r),
{
    if x == isize::MIN {
        Err(exc_from_str(ExcKind::OverflowExc, text("int absolute value overflow (value is i128 minimum)")))
    } else if x < 0 {
        Ok(Value::Int(-x))
    } else {
        Ok(Value::Int(x))
    }
}

/// `x` to the power `e`.
pub open spec fn ipow(x: int, e: nat) -> int
    decreases e,
{
    if e == 0 {
        1
    } else {
        x * ipow(x, (e - 1) as nat)
    }
}

/// `int`'s `pow`: the exponent is taken as a `u32` (a negative one wraps),
/// and must be below `u32::MAX`.
pub open spec fn spec_int_pow(x: isize, b: SValue) -> Result<SValue, SValue> {
    match b {
        SValue::Int(y) => if y >= (u32::MAX as isize) {
            Err(exc_value(ExcKind::OverflowExc, "Power is too large"@))
        } else {
            let p = ipow(x as int, (y as u32) as nat);
            if isize::MIN <= p <= isize::MAX {
                Ok(SValue::Int(p as isize))
            } else {
                Err(exc_value(ExcKind::OverflowExc, "int power overflow"@))
            }
        },
        _ => Err(exc_value(ExcKind::TypeMismatchExc, "Types do not match"@)),
    }
}

proof fn lemma_ipow_unit(x: int, e: nat)
    requires
        -1 <= x <= 1,
    ensures
        -1 <= ipow(x, e) <= 1,
        x == 1 ==> ipow(x, e) == 1,
        x == 0 && e > 0 ==> ipow(x, e) == 0,
        x == -1 ==> ipow(x, e) == (if e % 2 == 0 { 1int } else { -1int }),
    decreases e,
{
    if e > 0 {
        lemma_ipow_unit(x, (e - 1) as nat);
    }
}

proof fn lemma_ipow_grows(x: int, e: nat, k: nat)
    requires
        x <= -2 || x >= 2,
        k <= e,
    ensures
        ipow(x, k) != 0,
        ipow(x, e) == ipow(x, k) * ipow(x, (e - k) as nat),
        abs_int(ipow(x, e)) >= abs_int(ipow(x, k)),
    decreases e,
{
    if e > 0 && k <= e - 1 {
        lemma_ipow_grows(x, (e - 1) as nat, k);
        assert(ipow(x, (e - k) as nat) == x * ipow(x, (e - 1 - k) as nat));
        assert(ipow(x, e) == x * ipow(x, (e - 1) as nat));
        assert(ipow(x, e) == ipow(x, k) * ipow(x, (e - k) as nat)) by (nonlinear_arith)
            requires
                ipow(x, e) == x * ipow(x, (e - 1) as nat),
                ipow(x, (e - 1) as nat) == ipow(x, k) * ipow(x, (e - 1 - k) as nat),
                ipow(x, (e - k) as nat) == x * ipow(x, (e - 1 - k) as nat),
        ;
        assert(abs_int(ipow(x, e)) >= abs_int(ipow(x, (e - 1) as nat))) by (nonlinear_arith)
            requires
                ipow(x, e) == x * ipow(x, (e - 1) as nat),
                x <= -2 || x >= 2,
        {
            if ipow(x, (e - 1) as nat) >= 0 {
                if x >= 2 {
                } else {
                }
            }
        }
    } else if e > 0 {
        lemma_ipow_nonzero(x, e);
    } else {
    }
    if k > 0 {
        lemma_ipow_nonzero(x, k);
    }
}

proof fn lemma_ipow_nonzero(x: int, e: nat)
    requires
        x <= -2 || x >= 2,
    ensures
        ipow(x, e) != 0,
    decreases e,
{
    if e > 0 {
        lemma_ipow_nonzero(x, (e - 1) as nat);
        assert(x * ipow(x, (e - 1) as nat) != 0) by (nonlinear_arith)
            requires
                x != 0,
                ipow(x, (e - 1) as nat) != 0,
        ;
    }
}

pub open spec fn abs_int(x: int) -> int {
    if x < 0 {
        -x
    } else {
        x
    }
}

/// `x` to the power `e` on machine integers: `None` when it does not fit.
fn checked_pow(x: isize, e: u32) -> (r: Option<isize>)
    ensures
        match r {
            Some(v) => v == ipow(x as int, e as nat),
            None => !(isize::MIN <= ipow(x as int, e as nat) <= isize::MAX),
        },
{
    if -1 <= x && x <= 1 {
        proof {
            lemma_ipow_unit(x as int, e as nat);
        }
        if x == 1 {
            return Some(1);
        } else if x == 0 {
            return if e == 0 {
                Some(1)
            } else {
                Some(0)
            };
        } else {
            return if e % 2 == 0 {
                Some(1)
            } else {
                Some(-1)
            };
        }
    }
    let mut acc: isize = 1;
    let mut i: u32 = 0;
    while i < e
        invariant
            x <= -2 || x >= 2,
            i <= e,
            acc == ipow(x as int, i as nat),
        decreases e - i,
    {
        match acc.checked_mul(x) {
            None => {
                proof {
                    let p = ipow(x as int, (i + 1) as nat);
                    assert(p == x * ipow(x as int, i as nat));
                    assert(p == acc * x) by (nonlinear_arith)
                        requires
                            p == x * ipow(x as int, i as nat),
                            acc == ipow(x as int, i as nat),
                    ;
                    assert(p > isize::MAX || p < isize::MIN);
                    if e as int > i + 1 {
                        lemma_ipow_grows(x as int, e as nat, (i + 2) as nat);
                        let q = ipow(x as int, (i + 2) as nat);
                        assert(q == x * p);
                        assert(abs_int(q) >= 2 * abs_int(p)) by (nonlinear_arith)
                            requires
                                q == x * p,
                                x <= -2 || x >= 2,
                        {
                            if p >= 0 {
                                if x >= 2 {
                                } else {
                                }
                            } else {
                                if x >= 2 {
                                } else {
                                }
                            }
                        }
                    }
                }
                return None;
            },
            Some(v) => {
                acc = v;
            },
        }
        i = i + 1;
    }
    Some(acc)
}

pub fn int_pow(x: isize, b: &Value) -> (r: Result<Value, Value>)
    ensures
        value_res(spec_int_pow(x, b@), r),
{
    match b {
        Value::Int(y) => {
            if *y >= u32::MAX as isize {
                return Err(exc_from_str(ExcKind::OverflowExc, text("Power is too large")));
            }
            match checked_pow(x, *y as u32) {
                Some(v) => Ok(Value::Int(v)),
                None => Err(exc_from_str(ExcKind::OverflowExc, text("int power overflow"))),
            }
        },
        _ => Err(exc_from_str(ExcKind::TypeMismatchExc, text("Types do not match"))),
    }
}

// ---------------------------------------------------------------------------
// Dictionaries.

/// The index key of a hashable value.
pub open spec fn key_hash(k: SValue) -> i128 {
    match spec_hash(k) {
        Ok(h) => h as i128,
        Err(_) => 0,
    }
}

/// Each entry has a hashable key whose hash the index maps to the entry's
/// slot, and the index holds nothing else: one entry per hash.
pub open spec fn dict_wf(index: Map<i128, usize>, es: Seq<(SValue, SValue)>) -> bool {
    &&& forall|i: int|
        0 <= i < es.len() ==> spec_hash(#[trigger] es[i].0) is Ok && index.contains_key(key_hash(es[i].0))
            && index[key_hash(es[i].0)] == i
    &&& forall|h: i128| #[trigger] index.contains_key(h) ==> index[h] < es.len() && key_hash(es[index[h] as int].0) == h
}

/// The entries after storing `v` under `k` (hash `h`): the entry with that
/// hash replaced, or a new one appended.
pub open spec fn dict_put(index: Map<i128, usize>, es: Seq<(SValue, SValue)>, h: i128, k: SValue, v: SValue) -> Seq<
    (SValue, SValue),
> {
    if index.contains_key(h) {
        es.update(index[h] as int, (k, v))
    } else {
        es.push((k, v))
    }
}

pub open spec fn key_not_found(k: SValue) -> SValue {
    exc_value(ExcKind::KeyNotFoundExc, "Key '"@ + spec_str(k) + "' not found"@)
}

/// What looking `k` up gives.
pub open spec fn spec_dict_get(index: Map<i128, usize>, es: Seq<(SValue, SValue)>, k: SValue) -> Result<
    SValue,
    SValue,
> {
    match spec_hash(k) {
        Err(e) => Err(e),
        Ok(h) => if index.contains_key(h as i128) {
            Ok(es[index[h as i128] as int].1)
        } else {
            Err(key_not_found(k))
        },
    }
}

impl Dict {
    pub open spec fn wf(&self) -> bool {
        dict_wf(index_contents(self.index), entries_view(self.entries@))
    }

    /// An empty dictionary.
    pub fn new() -> (d: Dict)
        ensures
            d.wf(),
            entries_view(d.entries@) == Seq::<(SValue, SValue)>::empty(),
    {
        let d = Dict { index: HashIndex::new(), entries: Vec::new() };
        proof {
            assert(entries_view(d.entries@) =~= Seq::<(SValue, SValue)>::empty());
        }
        d
    }

    /// Stores `v` under `k` (`mhash::HashMap::insert`); raises when `k` has
    /// no hash.
    pub fn insert(&mut self, k: Value, v: Value) -> (r: Result<(), Value>)
        requires
            old(self).wf(),
        ensures
            final(self).wf(),
            match spec_hash(k@) {
                Err(e) => r is Err && r->Err_0@ == e && entries_view(final(self).entries@) == entries_view(
                    old(self).entries@,
                ),
                Ok(h) => r is Ok && entries_view(final(self).entries@) == dict_put(
                    index_contents(old(self).index),
                    entries_view(old(self).entries@),
                    h as i128,
                    k@,
                    v@,
                ),
            },
    {
        let ghost es = entries_view(self.entries@);
        let ghost ix = index_contents(self.index);
        proof {
            lemma_entries_view_len(self.entries@);
        }
        let h = match hash_value(&k) {
            Err(e) => {
                return Err(e);
            },
            Ok(h) => h as i128,
        };
        match self.index.get(h) {
            Some(slot) => {
                let ghost kv = k@;
                let ghost vv = v@;
                self.entries.set(slot, (k, v));
                proof {
                    lemma_entries_view_len(self.entries@);
                    assert(entries_view(self.entries@) =~= es.update(slot as int, (kv, vv)));
                }
            },
            None => {
                let n: usize = self.entries.len();
                self.index.insert(h, n);
                proof {
                    lemma_entries_view_push(self.entries@, (k, v));
                }
                self.entries.push((k, v));
                proof {
                    lemma_entries_view_len(self.entries@);
                    let es2 = entries_view(self.entries@);
                    let ix2 = index_contents(self.index);
                    assert forall|h2: i128| #[trigger] ix2.contains_key(h2) implies ix2[h2] < es2.len()
                        && key_hash(es2[ix2[h2] as int].0) == h2 by {
                        if h2 != h {
                            assert(ix.contains_key(h2));
                        }
                    }
                    assert forall|i: int| 0 <= i < es2.len() implies spec_hash(#[trigger] es2[i].0) is Ok
                        && ix2.contains_key(key_hash(es2[i].0)) && ix2[key_hash(es2[i].0)] == i by {
                        if i < es.len() {
                            assert(es2[i] == es[i]);
                            assert(key_hash(es[i].0) != h);
                        }
                    }
                }
            },
        }
        Ok(())
    }

    /// The value stored under `k` (`mhash::HashMap::get`).
    pub fn get(&self, k: &Value) -> (r: Result<Value, Value>)
        requires
            self.wf(),
        ensures
            value_res(spec_dict_get(index_contents(self.index), entries_view(self.entries@), k@), r),
    {
        proof {
            lemma_entries_view_len(self.entries@);
        }
        let h = match hash_value(k) {
            Err(e) => {
                return Err(e);
            },
            Ok(h) => h as i128,
        };
        match self.index.get(h) {
            Some(slot) => Ok(self.entries[slot].1.duplicate()),
            None => {
                let t = object_str(k);
                Err(exc_from_str(ExcKind::KeyNotFoundExc, concat3("Key '", t.as_str(), "' not found")))
            },
        }
    }

    /// The number of entries.
    pub fn len(&self) -> (r: usize)
        ensures
            r == entries_view(self.entries@).len(),
    {
        proof {
            lemma_entries_view_len(self.entries@);
        }
        self.entries.len()
    }
}

// ---------------------------------------------------------------------------
// Indexing and length.

/// `|i|`, the index that a (possibly negative) integer selects.
pub open spec fn index_of(i: isize) -> nat {
    if i < 0 {
        (-i) as nat
    } else {
        i as nat
    }
}

fn unsigned_abs(i: isize) -> (r: u128)
    ensures
        r == index_of(i),
{
    if i < 0 {
        (-(i as i128)) as u128
    } else {
        i as u128
    }
}

pub open spec fn expected_int_index(got: SValue) -> SValue {
    exc_value(ExcKind::TypeMismatchExc, "Expected 'int' index, got '"@ + spec_typename(got) + "'"@)
}

pub open spec fn out_of_range(max: nat, got: nat) -> SValue {
    exc_value(
        ExcKind::ValueExc,
        "Index out of range: maximum index is '"@ + digits_of(max) + "', but got '"@ + digits_of(got) + "'"@,
    )
}

fn expected_int_index_exc(got: &Value) -> (r: Value)
    ensures
        r@ == expected_int_index(got@),
{
    let t = typename(got);
    exc_from_str(ExcKind::TypeMismatchExc, concat3("Expected 'int' index, got '", t.as_str(), "'"))
}

fn out_of_range_exc(max: u128, got: u128) -> (r: Value)
    ensures
        r@ == out_of_range(max as nat, got as nat),
{
    let a = uint_to_string(max);
    let b = uint_to_string(got);
    let mut m = concat3("Index out of range: maximum index is '", a.as_str(), "', but got '");
    m.append(b.as_str());
    m.append("'");
    proof {
        assert(m@ =~= "Index out of range: maximum index is '"@ + digits_of(max as nat) + "', but got '"@
            + digits_of(got as nat) + "'"@);
    }
    exc_from_str(ExcKind::ValueExc, m)
}

/// What `list`'s `get` gives: the item at `|i|`.
pub open spec fn spec_list_get(xs: Seq<SValue>, i: SValue) -> Result<SValue, SValue> {
    match i {
        SValue::Int(n) => if index_of(n) >= xs.len() {
            Err(out_of_range(xs.len(), index_of(n)))
        } else {
            Ok(xs[index_of(n) as int])
        },
        _ => Err(expected_int_index(i)),
    }
}

pub fn list_get(l: &Vec<Value>, i: &Value) -> (r: Result<Value, Value>)
    ensures
        value_res(spec_list_get(values_view(l@), i@), r),
{
    proof {
        lemma_values_view_len(l@);
    }
    match i {
        Value::Int(n) => {
            let k = unsigned_abs(*n);
            if k >= l.len() as u128 {
                Err(out_of_range_exc(l.len() as u128, k))
            } else {
                Ok(l[k as usize].duplicate())
            }
        },
        _ => Err(expected_int_index_exc(i)),
    }
}

/// `list`'s `set`: an `int` index is refused (the check is the wrong way
/// round), so the call always raises.
pub fn list_set(l: &Vec<Value>, i: &Value, v: &Value) -> (r: Result<Value, Value>)
    requires
        i@ is Int,
    ensures
        value_res(Err(expected_int_index(i@)), r),
{
    Err(expected_int_index_exc(i))
}

pub fn list_len(l: &Vec<Value>) -> (r: Value)
    ensures
        r@ == SValue::Int(values_view(l@).len() as isize),
{
    proof {
        lemma_values_view_len(l@);
    }
    Value::Int(l.len() as isize)
}

/// The number of UTF-8 bytes of a string.
pub open spec fn byte_len(s: Seq<char>) -> nat {
    encode_utf8(s).len()
}

pub fn str_len(s: &String) -> (r: Value)
    ensures
        r@ == SValue::Int(byte_len(s@) as isize),
{
    let n: usize = s.as_str().as_bytes().len();
    Value::Int(n as isize)
}

/// The extended grapheme clusters of a text, in order.
pub uninterp spec fn graphemes_of(s: Seq<char>) -> Seq<Seq<char>>;

/// The extended grapheme clusters of `s`
/// (`unicode_segmentation::UnicodeSegmentation::graphemes` with
/// `is_extended` true), each as a string; what they are is named, not
/// stated.
#[verifier::external_body]
fn graphemes(s: &String) -> (r: Vec<String>)
    ensures
        r@.map_values(|g: String| g@) == graphemes_of(s@),
{
    unicode_segmentation::UnicodeSegmentation::graphemes(s.as_str(), true).map(|g| g.to_owned()).collect()
}

/// What `str`'s `get` gives, from the string's graphemes `gs` and byte
/// length: the grapheme at `|i|`.
pub open spec fn spec_str_get(gs: Seq<Seq<char>>, nbytes: nat, i: SValue) -> Result<SValue, SValue> {
    match i {
        SValue::Int(n) => if index_of(n) >= gs.len() {
            Err(out_of_range(nbytes, index_of(n)))
        } else {
            Ok(SValue::Str(gs[index_of(n) as int]))
        },
        _ => Err(expected_int_index(i)),
    }
}

/// `str`'s `get` on a string whose graphemes are `gs` and that has
/// `nbytes` bytes.
pub fn str_get_from(gs: &Vec<String>, nbytes: usize, i: &Value) -> (r: Result<Value, Value>)
    ensures
        value_res(spec_str_get(gs@.map_values(|g: String| g@), nbytes as nat, i@), r),
{
    match i {
        Value::Int(n) => {
            let k = unsigned_abs(*n);
            if k >= gs.len() as u128 {
                Err(out_of_range_exc(nbytes as u128, k))
            } else {
                Ok(Value::Str(gs[k as usize].clone()))
            }
        },
        _ => Err(expected_int_index_exc(i)),
    }
}

/// `str`'s `get`: the grapheme of `s` at `|i|`.
pub fn str_get(s: &String, i: &Value) -> (r: Result<Value, Value>)
    ensures
        value_res(spec_str_get(graphemes_of(s@), byte_len(s@), i@), r),
{
    let gs = graphemes(s);
    let n: usize = s.as_str().as_bytes().len();
    str_get_from(&gs, n, i)
}

/// Looking a key up right after storing a value under it finds that value;
/// a key of another hash finds what it found before. (`Dict::insert`
/// leaves a well-formed dictionary whose entries are `dict_put`'s; `get`
/// answers by `spec_dict_get`.)
pub proof fn law_dict_get_after_insert(
    ix1: Map<i128, usize>,
    es1: Seq<(SValue, SValue)>,
    ix2: Map<i128, usize>,
    es2: Seq<(SValue, SValue)>,
    k: SValue,
    v: SValue,
    k2: SValue,
)
    requires
        dict_wf(ix1, es1),
        dict_wf(ix2, es2),
        spec_hash(k) is Ok,
        es2 == dict_put(ix1, es1, key_hash(k), k, v),
    ensures
        spec_dict_get(ix2, es2, k) == Ok::<SValue, SValue>(v),
        spec_hash(k2) is Ok && key_hash(k2) != key_hash(k) ==> spec_dict_get(ix2, es2, k2) == spec_dict_get(
            ix1,
            es1,
            k2,
        ),
{
    let h = key_hash(k);
    let j: int = if ix1.contains_key(h) {
        ix1[h] as int
    } else {
        es1.len() as int
    };
    assert(es2[j] == (k, v));
    assert(spec_hash(es2[j].0) is Ok);
    assert(ix2[key_hash(es2[j].0)] == j);
    if spec_hash(k2) is Ok && key_hash(k2) != h {
        let h2 = key_hash(k2);
        if ix1.contains_key(h2) {
            let j2 = ix1[h2] as int;
            assert(key_hash(es1[j2].0) == h2);
            assert(es2[j2] == es1[j2]);
            assert(spec_hash(es2[j2].0) is Ok);
            assert(ix2[key_hash(es2[j2].0)] == j2);
        } else {
            if ix2.contains_key(h2) {
                let j3 = ix2[h2] as int;
                assert(key_hash(es2[j3].0) == h2);
                if j3 < es1.len() && j3 != j {
                    assert(es2[j3] == es1[j3]);
                    assert(spec_hash(es1[j3].0) is Ok);
                    assert(ix1.contains_key(key_hash(es1[j3].0)));
                }
            }
        }
    }
}


// ---------------------------------------------------------------------------
// What the operations are for.

/// Two strings are equal exactly when their texts are.
pub proof fn law_strings_equal_by_text(s: Seq<char>, t: Seq<char>)
    ensures
        spec_eq(SValue::Str(s), SValue::Str(t)) == Ok::<bool, SValue>(s == t),
{
}

/// The hash of an int is `DefaultHasher`'s hash of that same int.
pub proof fn law_int_hash_is_its_default_hash(x: isize)
    ensures
        spec_hash(SValue::Int(x)) == Ok::<int, SValue>(sip_hash_isize(x) as isize as int),
{
}

/// Two int keys whose `DefaultHasher` hashes differ are kept apart: after
/// storing `va` under `a` and then `vb` under `b`, looking `a` up gives
/// `va` and looking `b` up gives `vb`.
pub proof fn law_int_keys_kept_apart(
    ix0: Map<i128, usize>,
    es0: Seq<(SValue, SValue)>,
    ix1: Map<i128, usize>,
    es1: Seq<(SValue, SValue)>,
    ix2: Map<i128, usize>,
    es2: Seq<(SValue, SValue)>,
    a: isize,
    va: SValue,
    b: isize,
    vb: SValue,
)
    requires
        dict_wf(ix0, es0),
        dict_wf(ix1, es1),
        dict_wf(ix2, es2),
        es1 == dict_put(ix0, es0, key_hash(SValue::Int(a)), SValue::Int(a), va),
        es2 == dict_put(ix1, es1, key_hash(SValue::Int(b)), SValue::Int(b), vb),
        sip_hash_isize(a) as isize != sip_hash_isize(b) as isize,
    ensures
        spec_dict_get(ix2, es2, SValue::Int(a)) == Ok::<SValue, SValue>(va),
        spec_dict_get(ix2, es2, SValue::Int(b)) == Ok::<SValue, SValue>(vb),
{
    law_dict_get_after_insert(ix0, es0, ix1, es1, SValue::Int(a), va, SValue::Int(b));
    law_dict_get_after_insert(ix1, es1, ix2, es2, SValue::Int(b), vb, SValue::Int(a));
}

proof fn lemma_ipow_is_pow(x: int, e: nat)
    ensures
        ipow(x, e) == vstd::arithmetic::power::pow(x, e),
    decreases e,
{
    reveal(vstd::arithmetic::power::pow);
    if e > 0 {
        lemma_ipow_is_pow(x, (e - 1) as nat);
    }
}

/// Whenever `x` to the power `e` fits in an `isize` (and `e` is below the
/// largest `u32` read as an `isize`, which on a 32-bit target is -1),
/// `int`'s `pow` gives exactly that power.
pub proof fn law_pow_is_power(x: isize, e: isize)
    requires
        0 <= e,
        e < (u32::MAX as isize),
        isize::MIN <= vstd::arithmetic::power::pow(x as int, e as nat) <= isize::MAX,
    ensures
        spec_int_pow(x, SValue::Int(e)) == Ok::<SValue, SValue>(
            SValue::Int(vstd::arithmetic::power::pow(x as int, e as nat) as isize),
        ),
{
    lemma_ipow_is_pow(x as int, e as nat);
    assert((e as u32) as nat == e as nat);
}

} // verus!
