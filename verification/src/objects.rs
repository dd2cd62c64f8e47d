//! The values that programs compute with, and the operations of their types.
use vstd::prelude::*;
use crate::compiler::{Bytecode, SBytecode, bytecode_view, duplicate_bytecode};
use crate::parser::Position;

verus! {

/// The kinds of exceptions.
#[derive(Clone, Copy, PartialEq, Eq, Structural, Debug)]
pub enum ExcKind {
    Exception,
    NameExc,
    OverflowExc,
    MethodNotDefinedExc,
    TypeMismatchExc,
    KeyNotFoundExc,
    ValueExc,
    DivisionByZeroExc,
    AttrExc,
}

/// The result of a slot: a value, or the exception it raised.
#[derive(Debug)]
pub enum MethodValue<T, E> {
    Val(T),
    Error(E),
}

impl<T: Clone, E: Clone> MethodValue<T, E> {
    /// A clone of the value (`MethodValue::unwrap`).
    pub fn unwrap(&self) -> (r: T)
        requires
            *self is Val,
        ensures
            cloned(self->Val_0, r),
    {
        match self {
            MethodValue::Val(v) => v.clone(),
            MethodValue::Error(_) => vstd::pervasive::unreached(),
        }
    }

    /// A clone of the error (`MethodValue::unwrap_err`).
    pub fn unwrap_err(&self) -> (r: E)
        requires
            *self is Error,
        ensures
            cloned(self->Error_0, r),
    {
        match self {
            MethodValue::Error(v) => v.clone(),
            MethodValue::Val(_) => vstd::pervasive::unreached(),
        }
    }
}

impl<T, E> MethodValue<T, E> {
    pub fn is_error(&self) -> (r: bool)
        ensures
            r == (*self is Error),
    {
        match self {
            MethodValue::Error(_) => true,
            MethodValue::Val(_) => false,
        }
    }

    pub fn is_some(&self) -> (r: bool)
        ensures
            r == (*self is Val),
    {
        match self {
            MethodValue::Error(_) => false,
            MethodValue::Val(_) => true,
        }
    }
}

/// A value of the language.
#[derive(Debug)]
pub enum Value {
    NoneObject,
    Bool(bool),
    Int(isize),
    Str(String),
    List(Vec<Value>),
    Dict(Box<Dict>),
    Code(Box<Bytecode>),
    Fn(Box<FnData>),
    Exc(Box<ExcData>),
}

pub type MethodType = MethodValue<Value, Value>;

/// A function: its code, its parameter names, the variable slots its
/// arguments go to, and its name.
#[derive(Debug)]
pub struct FnData {
    pub code: Bytecode,
    pub args: Vec<String>,
    pub indices: Vec<isize>,
    pub name: String,
}

/// An exception: its kind, its message and the source range it was raised
/// at.
#[derive(Debug)]
pub struct ExcData {
    pub kind: ExcKind,
    pub msg: String,
    pub start: Position,
    pub end: Position,
}

/// The hash index of a dictionary: key hash to entry slot.
#[verifier::external_body]
#[derive(Debug)]
pub struct HashIndex {
    map: hashbrown::HashMap<i128, usize>,
}

/// A dictionary: entries found by the hash of their key; one entry per hash.
#[derive(Debug)]
pub struct Dict {
    pub index: HashIndex,
    pub entries: Vec<(Value, Value)>,
}

// ---------------------------------------------------------------------------
// The mathematical values.
pub enum SValue {
    NoneObject,
    Bool(bool),
    Int(isize),
    Str(Seq<char>),
    List(Seq<SValue>),
    Dict(Seq<(SValue, SValue)>),
    Code(Box<SBytecode>),
    Fn(Box<SBytecode>, Seq<Seq<char>>, Seq<isize>, Seq<char>),
    Exc(ExcKind, Seq<char>, Position, Position),
}

/// What a hash index holds.
pub uninterp spec fn index_contents(m: HashIndex) -> Map<i128, usize>;

impl HashIndex {
    /// An empty index (`hashbrown::HashMap::new`).
    #[verifier::external_body]
    pub(crate) fn new() -> (r: HashIndex)
        ensures
            index_contents(r) =~= Map::empty(),
    {
        HashIndex { map: hashbrown::HashMap::new() }
    }

    /// Sets the slot of hash `k` (`hashbrown::HashMap::insert`): the map
    /// afterwards holds `k -> v`, and the slot `k` had before is returned.
    #[verifier::external_body]
    pub(crate) fn insert(&mut self, k: i128, v: usize) -> (r: Option<usize>)
        ensures
            index_contents(*final(self)) == index_contents(*old(self)).insert(k, v),
            r == if index_contents(*old(self)).contains_key(k) {
                Some(index_contents(*old(self))[k])
            } else {
                None::<usize>
            },
    {
        self.map.insert(k, v)
    }

    /// The slot of hash `k`, if any (`hashbrown::HashMap::get`).
    #[verifier::external_body]
    pub(crate) fn get(&self, k: i128) -> (r: Option<usize>)
        ensures
            r == if index_contents(*self).contains_key(k) {
                Some(index_contents(*self)[k])
            } else {
                None::<usize>
            },
    {
        self.map.get(&k).copied()
    }

    /// A copy of the index (`hashbrown::HashMap::clone`).
    #[verifier::external_body]
    pub(crate) fn duplicate(&self) -> (r: HashIndex)
        ensures
            index_contents(r) == index_contents(*self),
    {
        HashIndex { map: self.map.clone() }
    }
}

pub open spec fn values_view(s: Seq<Value>) -> Seq<SValue>
    decreases s,
{
    if s.len() == 0 {
        seq![]
    } else {
        values_view(s.drop_last()).push(value_view(s.last()))
    }
}

pub open spec fn entries_view(s: Seq<(Value, Value)>) -> Seq<(SValue, SValue)>
    decreases s,
{
    if s.len() == 0 {
        seq![]
    } else {
        entries_view(s.drop_last()).push((value_view(s.last().0), value_view(s.last().1)))
    }
}

pub open spec fn value_view(v: Value) -> SValue
    decreases v,
{
    match v {
        Value::NoneObject => SValue::NoneObject,
        Value::Bool(b) => SValue::Bool(b),
        Value::Int(i) => SValue::Int(i),
        Value::Str(s) => SValue::Str(s@),
        Value::List(l) => SValue::List(values_view(l@)),
        Value::Dict(d) => SValue::Dict(entries_view(d.entries@)),
        Value::Code(b) => SValue::Code(Box::new(bytecode_view(*b))),
        Value::Fn(f) => SValue::Fn(
            Box::new(bytecode_view(f.code)),
            f.args@.map_values(|a: String| a@),
            f.indices@,
            f.name@,
        ),
        Value::Exc(e) => SValue::Exc(e.kind, e.msg@, e.start, e.end),
    }
}

impl View for Value {
    type V = SValue;

    open spec fn view(&self) -> SValue {
        value_view(*self)
    }
}

pub proof fn lemma_values_view_push(s: Seq<Value>, v: Value)
    ensures
        values_view(s.push(v)) == values_view(s).push(value_view(v)),
{
    assert(s.push(v).drop_last() == s);
}

pub proof fn lemma_entries_view_len(s: Seq<(Value, Value)>)
    ensures
        entries_view(s).len() == s.len(),
        forall|i: int|
            0 <= i < s.len() ==> #[trigger] entries_view(s)[i] == (value_view(s[i].0), value_view(s[i].1)),
    decreases s.len(),
{
    if s.len() > 0 {
        lemma_entries_view_len(s.drop_last());
    }
}

pub proof fn lemma_values_view_len(s: Seq<Value>)
    ensures
        values_view(s).len() == s.len(),
        forall|i: int| 0 <= i < s.len() ==> #[trigger] values_view(s)[i] == value_view(s[i]),
    decreases s.len(),
{
    if s.len() > 0 {
        lemma_values_view_len(s.drop_last());
    }
}

pub proof fn lemma_entries_view_push(s: Seq<(Value, Value)>, e: (Value, Value))
    ensures
        entries_view(s.push(e)) == entries_view(s).push((value_view(e.0), value_view(e.1))),
{
    assert(s.push(e).drop_last() == s);
}

impl Value {
    /// A copy of the value and all it holds.
    pub fn duplicate(&self) -> (r: Value)
        ensures
            r@ == self@,
            self matches Value::Dict(d) ==> (r matches Value::Dict(d2) && index_contents(d2.index) == index_contents(
                d.index,
            )),
        decreases self,
    {
        match self {
            Value::NoneObject => Value::NoneObject,
            Value::Bool(b) => Value::Bool(*b),
            Value::Int(i) => Value::Int(*i),
            Value::Str(s) => Value::Str(s.clone()),
            Value::List(l) => Value::List(duplicate_values(l)),
            Value::Dict(d) => Value::Dict(
                Box::new(Dict { index: d.index.duplicate(), entries: duplicate_entries(&d.entries) }),
            ),
            Value::Code(b) => Value::Code(Box::new(duplicate_bytecode(b))),
            Value::Fn(f) => {
                let code = duplicate_bytecode(&f.code);
                let args = duplicate_strings(&f.args);
                let mut indices: Vec<isize> = Vec::new();
                let mut i: usize = 0;
                while i < f.indices.len()
                    invariant
                        i <= f.indices.len(),
                        indices@ == f.indices@.subrange(0, i as int),
                    decreases f.indices.len() - i,
                {
                    indices.push(f.indices[i]);
                    i = i + 1;
                    proof {
                        assert(indices@ =~= f.indices@.subrange(0, i as int));
                    }
                }
                proof {
                    assert(indices@ =~= f.indices@);
                }
                Value::Fn(Box::new(FnData { code, args, indices, name: f.name.clone() }))
            },
            Value::Exc(e) => Value::Exc(
                Box::new(ExcData { kind: e.kind, msg: e.msg.clone(), start: e.start, end: e.end }),
            ),
        }
    }
}

/// Copies of the strings of `v`.
pub fn duplicate_strings(v: &Vec<String>) -> (r: Vec<String>)
    ensures
        r@.map_values(|x: String| x@) == v@.map_values(|x: String| x@),
{
    let mut out: Vec<String> = Vec::new();
    let mut i: usize = 0;
    while i < v.len()
        invariant
            i <= v.len(),
            out.len() == i,
            forall|t: int| 0 <= t < i ==> (#[trigger] out@[t])@ == v@[t]@,
        decreases v.len() - i,
    {
        out.push(v[i].clone());
        i = i + 1;
    }
    proof {
        assert(out@.map_values(|x: String| x@) =~= v@.map_values(|x: String| x@));
    }
    out
}

/// Copies of the values of `v`.
pub fn duplicate_values(v: &Vec<Value>) -> (r: Vec<Value>)
    ensures
        values_view(r@) == values_view(v@),
    decreases v,
{
    let mut out: Vec<Value> = Vec::new();
    let mut i: usize = 0;
    while i < v.len()
        invariant
            i <= v.len(),
            values_view(out@) == values_view(v@.subrange(0, i as int)),
        decreases v.len() - i,
    {
        let c = v[i].duplicate();
        proof {
            lemma_values_view_push(out@, c);
            lemma_values_view_push(v@.subrange(0, i as int), v@[i as int]);
            assert(v@.subrange(0, i as int).push(v@[i as int]) == v@.subrange(0, i + 1));
        }
        out.push(c);
        i = i + 1;
    }
    proof {
        assert(v@.subrange(0, i as int) == v@);
    }
    out
}

/// Copies of the entries of `v`.
pub fn duplicate_entries(v: &Vec<(Value, Value)>) -> (r: Vec<(Value, Value)>)
    ensures
        entries_view(r@) == entries_view(v@),
    decreases v,
{
    let mut out: Vec<(Value, Value)> = Vec::new();
    let mut i: usize = 0;
    while i < v.len()
        invariant
            i <= v.len(),
            entries_view(out@) == entries_view(v@.subrange(0, i as int)),
        decreases v.len() - i,
    {
        let k = v[i].0.duplicate();
        let w = v[i].1.duplicate();
        proof {
            lemma_entries_view_push(out@, (k, w));
            lemma_entries_view_push(v@.subrange(0, i as int), v@[i as int]);
            assert(v@.subrange(0, i as int).push(v@[i as int]) == v@.subrange(0, i + 1));
        }
        out.push((k, w));
        i = i + 1;
    }
    proof {
        assert(v@.subrange(0, i as int) == v@);
    }
    out
}

} // verus!
