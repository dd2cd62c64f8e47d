//! Type objects: the method slots of each type, how a type takes the slots
//! it lacks from its bases, the types that classes make, and how the methods
//! a class defines are run.
use vstd::prelude::*;
use vstd::string::StringExecFns;
use crate::interpreter::{RunError, SRunError, call_res, fn_call, spec_fn_call};
use crate::objects::{Dict, ExcKind, MethodValue, SValue, Value, duplicate_entries, entries_view, index_contents, value_view};
use crate::ops::{
    concat3, exc_from_str, exc_value, hash_value, not_defined, not_defined_msg, object_str, spec_dict_get, spec_hash, spec_str,
    spec_typename,
};

verus! {

/// The built-in method that fills a slot.
#[derive(Clone, Copy, PartialEq, Eq, Structural, Debug)]
pub enum SlotFn {
    ObjectNew,
    ObjectRepr,
    ObjectEq,
    ObjectHash,
    GenericGetattr,
    TypeNew,
    TypeRepr,
    TypeEq,
    TypeHash,
    IntNew,
    IntRepr,
    IntAbs,
    IntNeg,
    IntHash,
    IntEq,
    IntAdd,
    IntSub,
    IntMul,
    IntDiv,
    IntPow,
    BoolNew,
    BoolRepr,
    BoolHash,
    BoolEq,
    StrNew,
    StrRepr,
    StrStr,
    StrHash,
    StrEq,
    StrGet,
    StrLen,
    ListNew,
    ListRepr,
    ListEq,
    ListGet,
    ListSet,
    ListLen,
    NoneNew,
    NoneRepr,
    NoneHash,
    NoneEq,
    DictNew,
    DictRepr,
    DictStr,
    DictEq,
    DictGet,
    DictSet,
    DictLen,
    CodeNew,
    CodeRepr,
    CodeEq,
    FnNew,
    FnRepr,
    FnEq,
    FnCall,
    ExcNew,
    ExcRepr,
    ExcStr,
    ExcHash,
    ExcEq,
    MethodNew,
    MethodRepr,
    MethodEq,
    MethodCall,
    ClassRepr,
    ClassStr,
    ClassAbs,
    ClassNeg,
    ClassHash,
    ClassEq,
    ClassAdd,
    ClassSub,
    ClassMul,
    ClassDiv,
    ClassPow,
    ClassGet,
    ClassSet,
    ClassLen,
    ClassCall,
    ClassGetattr,
}

/// The method slots of a type.
#[derive(Clone, Copy, PartialEq, Eq, Structural, Debug)]
pub struct Slots {
    pub new: Option<SlotFn>,
    pub repr: Option<SlotFn>,
    pub str: Option<SlotFn>,
    pub abs: Option<SlotFn>,
    pub neg: Option<SlotFn>,
    pub hash_fn: Option<SlotFn>,
    pub eq: Option<SlotFn>,
    pub add: Option<SlotFn>,
    pub sub: Option<SlotFn>,
    pub mul: Option<SlotFn>,
    pub div: Option<SlotFn>,
    pub pow: Option<SlotFn>,
    pub get: Option<SlotFn>,
    pub set: Option<SlotFn>,
    pub len: Option<SlotFn>,
    pub call: Option<SlotFn>,
    pub getattr: Option<SlotFn>,
    pub setattr: Option<SlotFn>,
    pub descrget: Option<SlotFn>,
    pub descrset: Option<SlotFn>,
}

/// A type: its name, its bases, its number, its attribute dictionary (for
/// a class) and its slots.
#[derive(Debug)]
pub struct TypeObject {
    pub typename: String,
    pub bases: Vec<TypeObject>,
    pub typeid: u32,
    pub dict: Option<Dict>,
    pub slots: Slots,
}

/// `base`'s slot where it has one, else `own`.
pub open spec fn pick(own: Option<SlotFn>, base: Option<SlotFn>) -> Option<SlotFn> {
    if base is Some {
        base
    } else {
        own
    }
}

/// The slots of `tp` after taking those of `base`: every slot but `str`
/// and `hash_fn` becomes `base`'s where `base` has it.
pub open spec fn spec_inherit(tp: Slots, base: Slots) -> Slots {
    Slots {
        new: pick(tp.new, base.new),
        repr: pick(tp.repr, base.repr),
        str: tp.str,
        abs: pick(tp.abs, base.abs),
        neg: pick(tp.neg, base.neg),
        hash_fn: tp.hash_fn,
        eq: pick(tp.eq, base.eq),
        add: pick(tp.add, base.add),
        sub: pick(tp.sub, base.sub),
        mul: pick(tp.mul, base.mul),
        div: pick(tp.div, base.div),
        pow: pick(tp.pow, base.pow),
        get: pick(tp.get, base.get),
        set: pick(tp.set, base.set),
        len: pick(tp.len, base.len),
        call: pick(tp.call, base.call),
        getattr: pick(tp.getattr, base.getattr),
        setattr: pick(tp.setattr, base.setattr),
        descrget: pick(tp.descrget, base.descrget),
        descrset: pick(tp.descrset, base.descrset),
    }
}

fn pick_exec(own: Option<SlotFn>, base: Option<SlotFn>) -> (r: Option<SlotFn>)
    ensures
        r == pick(own, base),
{
    if base.is_some() {
        base
    } else {
        own
    }
}

/// Takes into `tp` the slots that `base` has (`inherit_slots`).
pub fn inherit_slots(tp: &mut Slots, base: &Slots)
    ensures
        *final(tp) == spec_inherit(*old(tp), *base),
{
    tp.new = pick_exec(tp.new, base.new);
    tp.repr = pick_exec(tp.repr, base.repr);
    tp.abs = pick_exec(tp.abs, base.abs);
    tp.neg = pick_exec(tp.neg, base.neg);
    tp.eq = pick_exec(tp.eq, base.eq);
    tp.add = pick_exec(tp.add, base.add);
    tp.sub = pick_exec(tp.sub, base.sub);
    tp.mul = pick_exec(tp.mul, base.mul);
    tp.div = pick_exec(tp.div, base.div);
    tp.pow = pick_exec(tp.pow, base.pow);
    tp.get = pick_exec(tp.get, base.get);
    tp.set = pick_exec(tp.set, base.set);
    tp.len = pick_exec(tp.len, base.len);
    tp.call = pick_exec(tp.call, base.call);
    tp.getattr = pick_exec(tp.getattr, base.getattr);
    tp.setattr = pick_exec(tp.setattr, base.setattr);
    tp.descrget = pick_exec(tp.descrget, base.descrget);
    tp.descrset = pick_exec(tp.descrset, base.descrset);
}

/// The slots after taking those of each base in turn.
pub open spec fn inherit_all(tp: Slots, bases: Seq<Slots>) -> Slots
    decreases bases.len(),
{
    if bases.len() == 0 {
        tp
    } else {
        spec_inherit(inherit_all(tp, bases.drop_last()), bases.last())
    }
}

pub open spec fn base_slots(bases: Seq<TypeObject>) -> Seq<Slots> {
    bases.map_values(|b: TypeObject| b.slots)
}

/// The slots of a finished type: those of its bases taken in turn, then its
/// own taken back over them.
pub open spec fn spec_finalize(own: Slots, bases: Seq<Slots>) -> Slots {
    spec_inherit(inherit_all(own, bases), own)
}

/// Finishes a type (`finalize_type`): takes the slots of its bases in
/// order, then its own again.
pub fn finalize_type(tp: &mut TypeObject)
    ensures
        final(tp).slots == spec_finalize(old(tp).slots, base_slots(old(tp).bases@)),
        final(tp).typename == old(tp).typename,
        final(tp).typeid == old(tp).typeid,
        final(tp).bases == old(tp).bases,
        final(tp).dict == old(tp).dict,
{
    let raw = tp.slots;
    let mut i: usize = 0;
    while i < tp.bases.len()
        invariant
            i <= tp.bases.len(),
            tp.bases == old(tp).bases,
            tp.typename == old(tp).typename,
            tp.typeid == old(tp).typeid,
            tp.dict == old(tp).dict,
            raw == old(tp).slots,
            tp.slots == inherit_all(raw, base_slots(tp.bases@).subrange(0, i as int)),
        decreases tp.bases.len() - i,
    {
        let b = tp.bases[i].slots;
        proof {
            let bs = base_slots(tp.bases@);
            assert(bs.subrange(0, i + 1).drop_last() =~= bs.subrange(0, i as int));
            assert(bs.subrange(0, i + 1).last() == b);
        }
        inherit_slots(&mut tp.slots, &b);
        i = i + 1;
    }
    proof {
        assert(base_slots(tp.bases@).subrange(0, i as int) =~= base_slots(tp.bases@));
    }
    inherit_slots(&mut tp.slots, &raw);
}

/// A finished type's slot: its own where it has one, else that of the
/// last base that has it.
pub open spec fn from_bases(own: Option<SlotFn>, bases: Seq<Option<SlotFn>>) -> Option<SlotFn>
    decreases bases.len(),
{
    if bases.len() == 0 {
        own
    } else {
        pick(from_bases(own, bases.drop_last()), bases.last())
    }
}

/// A finished type keeps each slot of its own, and takes each slot it lacks
/// (but `str` and `hash_fn`, which are never taken) from the last of its
/// bases that has it.
pub proof fn law_finalize_keeps_own(own: Slots, bases: Seq<Slots>)
    ensures
        ({
            let s = spec_finalize(own, bases);
            &&& own.repr is Some ==> s.repr == own.repr
            &&& own.repr is None ==> s.repr == from_bases(None, bases.map_values(|b: Slots| b.repr))
            &&& own.add is Some ==> s.add == own.add
            &&& own.add is None ==> s.add == from_bases(None, bases.map_values(|b: Slots| b.add))
            &&& own.eq is Some ==> s.eq == own.eq
            &&& own.eq is None ==> s.eq == from_bases(None, bases.map_values(|b: Slots| b.eq))
            &&& own.call is Some ==> s.call == own.call
            &&& own.call is None ==> s.call == from_bases(None, bases.map_values(|b: Slots| b.call))
            &&& own.getattr is Some ==> s.getattr == own.getattr
            &&& own.getattr is None ==> s.getattr == from_bases(None, bases.map_values(|b: Slots| b.getattr))
            &&& s.str == own.str
            &&& s.hash_fn == own.hash_fn
        }),
    decreases bases.len(),
{
    lemma_inherit_all_fields(own, bases);
}

proof fn lemma_inherit_all_fields(own: Slots, bases: Seq<Slots>)
    ensures
        inherit_all(own, bases).repr == from_bases(own.repr, bases.map_values(|b: Slots| b.repr)),
        inherit_all(own, bases).add == from_bases(own.add, bases.map_values(|b: Slots| b.add)),
        inherit_all(own, bases).eq == from_bases(own.eq, bases.map_values(|b: Slots| b.eq)),
        inherit_all(own, bases).call == from_bases(own.call, bases.map_values(|b: Slots| b.call)),
        inherit_all(own, bases).getattr == from_bases(own.getattr, bases.map_values(|b: Slots| b.getattr)),
        inherit_all(own, bases).str == own.str,
        inherit_all(own, bases).hash_fn == own.hash_fn,
        own.repr is None ==> from_bases(own.repr, bases.map_values(|b: Slots| b.repr)) == from_bases(
            None,
            bases.map_values(|b: Slots| b.repr),
        ),
    decreases bases.len(),
{
    if bases.len() > 0 {
        lemma_inherit_all_fields(own, bases.drop_last());
        assert(bases.drop_last().map_values(|b: Slots| b.repr) =~= bases.map_values(|b: Slots| b.repr).drop_last());
        assert(bases.drop_last().map_values(|b: Slots| b.add) =~= bases.map_values(|b: Slots| b.add).drop_last());
        assert(bases.drop_last().map_values(|b: Slots| b.eq) =~= bases.map_values(|b: Slots| b.eq).drop_last());
        assert(bases.drop_last().map_values(|b: Slots| b.call) =~= bases.map_values(|b: Slots| b.call).drop_last());
        assert(bases.drop_last().map_values(|b: Slots| b.getattr) =~= bases.map_values(|b: Slots| b.getattr).drop_last());
    }
}

// ---------------------------------------------------------------------------
// The built-in types.

/// The built-in types, in the order they are made (which is the order of
/// their numbers).
#[derive(Clone, Copy, PartialEq, Eq, Structural, Debug)]
pub enum Builtin {
    Object,
    Type,
    Int,
    Bool,
    Str,
    List,
    NoneType,
    Dict,
    Code,
    Fn,
    Exc(ExcKind),
    Method,
}

pub open spec fn no_slots() -> Slots {
    Slots {
        new: None,
        repr: None,
        str: None,
        abs: None,
        neg: None,
        hash_fn: None,
        eq: None,
        add: None,
        sub: None,
        mul: None,
        div: None,
        pow: None,
        get: None,
        set: None,
        len: None,
        call: None,
        getattr: None,
        setattr: None,
        descrget: None,
        descrset: None,
    }
}

/// The slots a built-in type fills itself.
pub open spec fn own_slots(t: Builtin) -> Slots {
    let e = no_slots();
    match t {
        Builtin::Object => Slots {
            new: Some(SlotFn::ObjectNew),
            repr: Some(SlotFn::ObjectRepr),
            str: Some(SlotFn::ObjectRepr),
            hash_fn: Some(SlotFn::ObjectHash),
            eq: Some(SlotFn::ObjectEq),
            getattr: Some(SlotFn::GenericGetattr),
            ..e
        },
        Builtin::Type => Slots {
            new: Some(SlotFn::TypeNew),
            repr: Some(SlotFn::TypeRepr),
            str: Some(SlotFn::TypeRepr),
            hash_fn: Some(SlotFn::TypeHash),
            eq: Some(SlotFn::TypeEq),
            ..e
        },
        Builtin::Int => Slots {
            new: Some(SlotFn::IntNew),
            repr: Some(SlotFn::IntRepr),
            str: Some(SlotFn::IntRepr),
            abs: Some(SlotFn::IntAbs),
            neg: Some(SlotFn::IntNeg),
            hash_fn: Some(SlotFn::IntHash),
            eq: Some(SlotFn::IntEq),
            add: Some(SlotFn::IntAdd),
            sub: Some(SlotFn::IntSub),
            mul: Some(SlotFn::IntMul),
            div: Some(SlotFn::IntDiv),
            pow: Some(SlotFn::IntPow),
            ..e
        },
        Builtin::Bool => Slots {
            new: Some(SlotFn::BoolNew),
            repr: Some(SlotFn::BoolRepr),
            str: Some(SlotFn::BoolRepr),
            hash_fn: Some(SlotFn::BoolHash),
            eq: Some(SlotFn::BoolEq),
            ..e
        },
        Builtin::Str => Slots {
            new: Some(SlotFn::StrNew),
            repr: Some(SlotFn::StrRepr),
            str: Some(SlotFn::StrStr),
            hash_fn: Some(SlotFn::StrHash),
            eq: Some(SlotFn::StrEq),
            get: Some(SlotFn::StrGet),
            len: Some(SlotFn::StrLen),
            ..e
        },
        Builtin::List => Slots {
            new: Some(SlotFn::ListNew),
            repr: Some(SlotFn::ListRepr),
            str: Some(SlotFn::ListRepr),
            eq: Some(SlotFn::ListEq),
            get: Some(SlotFn::ListGet),
            set: Some(SlotFn::ListSet),
            len: Some(SlotFn::ListLen),
            ..e
        },
        Builtin::NoneType => Slots {
            new: Some(SlotFn::NoneNew),
            repr: Some(SlotFn::NoneRepr),
            str: Some(SlotFn::NoneRepr),
            hash_fn: Some(SlotFn::NoneHash),
            eq: Some(SlotFn::NoneEq),
            ..e
        },
        Builtin::Dict => Slots {
            new: Some(SlotFn::DictNew),
            repr: Some(SlotFn::DictRepr),
            str: Some(SlotFn::DictStr),
            eq: Some(SlotFn::DictEq),
            get: Some(SlotFn::DictGet),
            set: Some(SlotFn::DictSet),
            len: Some(SlotFn::DictLen),
            ..e
        },
        Builtin::Code => Slots {
            new: Some(SlotFn::CodeNew),
            repr: Some(SlotFn::CodeRepr),
            str: Some(SlotFn::CodeRepr),
            eq: Some(SlotFn::CodeEq),
            ..e
        },
        Builtin::Fn => Slots {
            new: Some(SlotFn::FnNew),
            repr: Some(SlotFn::FnRepr),
            str: Some(SlotFn::FnRepr),
            eq: Some(SlotFn::FnEq),
            call: Some(SlotFn::FnCall),
            ..e
        },
        Builtin::Exc(k) => Slots {
            new: Some(SlotFn::ExcNew),
            repr: Some(SlotFn::ExcRepr),
            str: Some(if k == ExcKind::Exception { SlotFn::ExcRepr } else { SlotFn::ExcStr }),
            hash_fn: Some(SlotFn::ExcHash),
            eq: Some(SlotFn::ExcEq),
            ..e
        },
        Builtin::Method => Slots {
            new: Some(SlotFn::MethodNew),
            repr: Some(SlotFn::MethodRepr),
            str: Some(SlotFn::MethodRepr),
            eq: Some(SlotFn::MethodEq),
            call: Some(SlotFn::MethodCall),
            ..e
        },
    }
}

/// The bases of a built-in type: `object` (itself for `object`), and for a
/// kind of exception `Exception` before it.
pub open spec fn builtin_bases(t: Builtin) -> Seq<Builtin> {
    match t {
        Builtin::Exc(k) => if k == ExcKind::Exception {
            seq![Builtin::Object]
        } else {
            seq![Builtin::Exc(ExcKind::Exception), Builtin::Object]
        },
        _ => seq![Builtin::Object],
    }
}

/// The slots of `object` once finished: its own, as its base is itself.
pub open spec fn object_slots() -> Slots {
    spec_finalize(own_slots(Builtin::Object), seq![own_slots(Builtin::Object)])
}

pub open spec fn exception_slots() -> Slots {
    spec_finalize(own_slots(Builtin::Exc(ExcKind::Exception)), seq![object_slots()])
}

/// The slots of a built-in type once finished.
pub open spec fn builtin_slots(t: Builtin) -> Slots {
    match t {
        Builtin::Object => object_slots(),
        Builtin::Exc(k) => if k == ExcKind::Exception {
            exception_slots()
        } else {
            spec_finalize(own_slots(t), seq![exception_slots(), object_slots()])
        },
        _ => spec_finalize(own_slots(t), seq![object_slots()]),
    }
}

pub open spec fn exc_number(k: ExcKind) -> u32 {
    match k {
        ExcKind::Exception => 10,
        ExcKind::NameExc => 11,
        ExcKind::OverflowExc => 12,
        ExcKind::MethodNotDefinedExc => 13,
        ExcKind::TypeMismatchExc => 14,
        ExcKind::KeyNotFoundExc => 15,
        ExcKind::ValueExc => 16,
        ExcKind::DivisionByZeroExc => 17,
        ExcKind::AttrExc => 18,
    }
}

/// The number of a built-in type.
pub open spec fn builtin_id(t: Builtin) -> u32 {
    match t {
        Builtin::Object => 0,
        Builtin::Type => 1,
        Builtin::Int => 2,
        Builtin::Bool => 3,
        Builtin::Str => 4,
        Builtin::List => 5,
        Builtin::NoneType => 6,
        Builtin::Dict => 7,
        Builtin::Code => 8,
        Builtin::Fn => 9,
        Builtin::Exc(k) => exc_number(k),
        Builtin::Method => 19,
    }
}

/// The built-in type of a value.
pub open spec fn type_of(v: SValue) -> Builtin {
    match v {
        SValue::NoneObject => Builtin::NoneType,
        SValue::Bool(_) => Builtin::Bool,
        SValue::Int(_) => Builtin::Int,
        SValue::Str(_) => Builtin::Str,
        SValue::List(_) => Builtin::List,
        SValue::Dict(_) => Builtin::Dict,
        SValue::Code(_) => Builtin::Code,
        SValue::Fn(_, _, _, _) => Builtin::Fn,
        SValue::Exc(k, _, _, _) => Builtin::Exc(k),
    }
}

fn own_slots_exec(t: Builtin) -> (r: Slots)
    ensures
        r == own_slots(t),
{
    let e = Slots {
        new: None,
        repr: None,
        str: None,
        abs: None,
        neg: None,
        hash_fn: None,
        eq: None,
        add: None,
        sub: None,
        mul: None,
        div: None,
        pow: None,
        get: None,
        set: None,
        len: None,
        call: None,
        getattr: None,
        setattr: None,
        descrget: None,
        descrset: None,
    };
    match t {
        Builtin::Object => Slots {
            new: Some(SlotFn::ObjectNew),
            repr: Some(SlotFn::ObjectRepr),
            str: Some(SlotFn::ObjectRepr),
            hash_fn: Some(SlotFn::ObjectHash),
            eq: Some(SlotFn::ObjectEq),
            getattr: Some(SlotFn::GenericGetattr),
            ..e
        },
        Builtin::Type => Slots {
            new: Some(SlotFn::TypeNew),
            repr: Some(SlotFn::TypeRepr),
            str: Some(SlotFn::TypeRepr),
            hash_fn: Some(SlotFn::TypeHash),
            eq: Some(SlotFn::TypeEq),
            ..e
        },
        Builtin::Int => Slots {
            new: Some(SlotFn::IntNew),
            repr: Some(SlotFn::IntRepr),
            str: Some(SlotFn::IntRepr),
            abs: Some(SlotFn::IntAbs),
            neg: Some(SlotFn::IntNeg),
            hash_fn: Some(SlotFn::IntHash),
            eq: Some(SlotFn::IntEq),
            add: Some(SlotFn::IntAdd),
            sub: Some(SlotFn::IntSub),
            mul: Some(SlotFn::IntMul),
            div: Some(SlotFn::IntDiv),
            pow: Some(SlotFn::IntPow),
            ..e
        },
        Builtin::Bool => Slots {
            new: Some(SlotFn::BoolNew),
            repr: Some(SlotFn::BoolRepr),
            str: Some(SlotFn::BoolRepr),
            hash_fn: Some(SlotFn::BoolHash),
            eq: Some(SlotFn::BoolEq),
            ..e
        },
        Builtin::Str => Slots {
            new: Some(SlotFn::StrNew),
            repr: Some(SlotFn::StrRepr),
            str: Some(SlotFn::StrStr),
            hash_fn: Some(SlotFn::StrHash),
            eq: Some(SlotFn::StrEq),
            get: Some(SlotFn::StrGet),
            len: Some(SlotFn::StrLen),
            ..e
        },
        Builtin::List => Slots {
            new: Some(SlotFn::ListNew),
            repr: Some(SlotFn::ListRepr),
            str: Some(SlotFn::ListRepr),
            eq: Some(SlotFn::ListEq),
            get: Some(SlotFn::ListGet),
            set: Some(SlotFn::ListSet),
            len: Some(SlotFn::ListLen),
            ..e
        },
        Builtin::NoneType => Slots {
            new: Some(SlotFn::NoneNew),
            repr: Some(SlotFn::NoneRepr),
            str: Some(SlotFn::NoneRepr),
            hash_fn: Some(SlotFn::NoneHash),
            eq: Some(SlotFn::NoneEq),
            ..e
        },
        Builtin::Dict => Slots {
            new: Some(SlotFn::DictNew),
            repr: Some(SlotFn::DictRepr),
            str: Some(SlotFn::DictStr),
            eq: Some(SlotFn::DictEq),
            get: Some(SlotFn::DictGet),
            set: Some(SlotFn::DictSet),
            len: Some(SlotFn::DictLen),
            ..e
        },
        Builtin::Code => Slots {
            new: Some(SlotFn::CodeNew),
            repr: Some(SlotFn::CodeRepr),
            str: Some(SlotFn::CodeRepr),
            eq: Some(SlotFn::CodeEq),
            ..e
        },
        Builtin::Fn => Slots {
            new: Some(SlotFn::FnNew),
            repr: Some(SlotFn::FnRepr),
            str: Some(SlotFn::FnRepr),
            eq: Some(SlotFn::FnEq),
            call: Some(SlotFn::FnCall),
            ..e
        },
        Builtin::Exc(k) => Slots {
            new: Some(SlotFn::ExcNew),
            repr: Some(SlotFn::ExcRepr),
            str: Some(if k == ExcKind::Exception { SlotFn::ExcRepr } else { SlotFn::ExcStr }),
            hash_fn: Some(SlotFn::ExcHash),
            eq: Some(SlotFn::ExcEq),
            ..e
        },
        Builtin::Method => Slots {
            new: Some(SlotFn::MethodNew),
            repr: Some(SlotFn::MethodRepr),
            str: Some(SlotFn::MethodRepr),
            eq: Some(SlotFn::MethodEq),
            call: Some(SlotFn::MethodCall),
            ..e
        },
    }
}

fn builtin_name(t: Builtin) -> (r: String)
    ensures
        r@ == builtin_typename(t),
{
    match t {
        Builtin::Object => "object".to_owned(),
        Builtin::Type => "type".to_owned(),
        Builtin::Int => "int".to_owned(),
        Builtin::Bool => "bool".to_owned(),
        Builtin::Str => "str".to_owned(),
        Builtin::List => "list".to_owned(),
        Builtin::NoneType => "NoneType".to_owned(),
        Builtin::Dict => "dict".to_owned(),
        Builtin::Code => "code".to_owned(),
        Builtin::Fn => "fn".to_owned(),
        Builtin::Exc(k) => crate::ops::exc_typename_of(k),
        Builtin::Method => "fn".to_owned(),
    }
}

pub open spec fn builtin_typename(t: Builtin) -> Seq<char> {
    match t {
        Builtin::Object => "object"@,
        Builtin::Type => "type"@,
        Builtin::Int => "int"@,
        Builtin::Bool => "bool"@,
        Builtin::Str => "str"@,
        Builtin::List => "list"@,
        Builtin::NoneType => "NoneType"@,
        Builtin::Dict => "dict"@,
        Builtin::Code => "code"@,
        Builtin::Fn => "fn"@,
        Builtin::Exc(k) => crate::ops::exc_typename(k),
        Builtin::Method => "fn"@,
    }
}

fn builtin_number(t: Builtin) -> (r: u32)
    ensures
        r == builtin_id(t),
{
    match t {
        Builtin::Object => 0,
        Builtin::Type => 1,
        Builtin::Int => 2,
        Builtin::Bool => 3,
        Builtin::Str => 4,
        Builtin::List => 5,
        Builtin::NoneType => 6,
        Builtin::Dict => 7,
        Builtin::Code => 8,
        Builtin::Fn => 9,
        Builtin::Exc(k) => match k {
            ExcKind::Exception => 10,
            ExcKind::NameExc => 11,
            ExcKind::OverflowExc => 12,
            ExcKind::MethodNotDefinedExc => 13,
            ExcKind::TypeMismatchExc => 14,
            ExcKind::KeyNotFoundExc => 15,
            ExcKind::ValueExc => 16,
            ExcKind::DivisionByZeroExc => 17,
            ExcKind::AttrExc => 18,
        },
        Builtin::Method => 19,
    }
}

/// A built-in type, finished (the `init` of each type).
pub fn builtin_type(t: Builtin) -> (r: TypeObject)
    ensures
        r.slots == builtin_slots(t),
        r.typename@ == builtin_typename(t),
        r.typeid == builtin_id(t),
        r.dict is None,
    decreases (if t is Object { 0int } else if t == Builtin::Exc(ExcKind::Exception) { 1int } else { 2int }),
{
    let mut bases: Vec<TypeObject> = Vec::new();
    match t {
        Builtin::Object => {
            bases.push(TypeObject {
                typename: builtin_name(Builtin::Object),
                bases: Vec::new(),
                typeid: 0,
                dict: None,
                slots: own_slots_exec(Builtin::Object),
            });
        },
        Builtin::Exc(k) => {
            if k != ExcKind::Exception {
                bases.push(builtin_type(Builtin::Exc(ExcKind::Exception)));
            }
            bases.push(builtin_type(Builtin::Object));
        },
        _ => {
            bases.push(builtin_type(Builtin::Object));
        },
    }
    let mut tp = TypeObject {
        typename: builtin_name(t),
        bases,
        typeid: builtin_number(t),
        dict: None,
        slots: own_slots_exec(t),
    };
    proof {
        assert(base_slots(tp.bases@) =~= match t {
            Builtin::Object => seq![own_slots(Builtin::Object)],
            Builtin::Exc(k) => if k == ExcKind::Exception {
                seq![object_slots()]
            } else {
                seq![exception_slots(), object_slots()]
            },
            _ => seq![object_slots()],
        });
    }
    finalize_type(&mut tp);
    tp
}

/// The built-in type values of each kind belong to have their `add`, `neg`
/// and `call` slots exactly where the machine runs those operations: `add`
/// and `neg` for integers only, `call` for functions only.
pub proof fn law_dispatch_matches_slots(v: SValue)
    ensures
        builtin_slots(type_of(v)).add is Some <==> v is Int,
        builtin_slots(type_of(v)).sub is Some <==> v is Int,
        builtin_slots(type_of(v)).mul is Some <==> v is Int,
        builtin_slots(type_of(v)).div is Some <==> v is Int,
        builtin_slots(type_of(v)).neg is Some <==> v is Int,
        builtin_slots(type_of(v)).call is Some <==> v is Fn,
        builtin_slots(type_of(v)).hash_fn is Some <==> !(v is List || v is Dict || v is Code || v is Fn),
{
    lemma_inherit_one(own_slots(Builtin::Object), own_slots(Builtin::Object));
    lemma_inherit_one(own_slots(Builtin::Exc(ExcKind::Exception)), object_slots());
    lemma_inherit_one(own_slots(type_of(v)), object_slots());
    lemma_inherit_two(own_slots(type_of(v)), exception_slots(), object_slots());
}

proof fn lemma_inherit_one(own: Slots, a: Slots)
    ensures
        inherit_all(own, seq![a]) == spec_inherit(own, a),
{
    assert(seq![a].drop_last() =~= Seq::<Slots>::empty());
    assert(seq![a].last() == a);
    assert(inherit_all(own, Seq::<Slots>::empty()) == own);
    assert(inherit_all(own, seq![a]) == spec_inherit(inherit_all(own, seq![a].drop_last()), seq![a].last()));
}

proof fn lemma_inherit_two(own: Slots, a: Slots, b: Slots)
    ensures
        inherit_all(own, seq![a, b]) == spec_inherit(spec_inherit(own, a), b),
{
    assert(seq![a, b].drop_last() =~= seq![a]);
    assert(seq![a, b].last() == b);
    lemma_inherit_one(own, a);
}

/// The built-in type numbered `i`, for `i` below 20.
pub open spec fn builtin_numbered(i: int) -> Builtin {
    if i == 0 {
        Builtin::Object
    } else if i == 1 {
        Builtin::Type
    } else if i == 2 {
        Builtin::Int
    } else if i == 3 {
        Builtin::Bool
    } else if i == 4 {
        Builtin::Str
    } else if i == 5 {
        Builtin::List
    } else if i == 6 {
        Builtin::NoneType
    } else if i == 7 {
        Builtin::Dict
    } else if i == 8 {
        Builtin::Code
    } else if i == 9 {
        Builtin::Fn
    } else if i == 10 {
        Builtin::Exc(ExcKind::Exception)
    } else if i == 11 {
        Builtin::Exc(ExcKind::NameExc)
    } else if i == 12 {
        Builtin::Exc(ExcKind::OverflowExc)
    } else if i == 13 {
        Builtin::Exc(ExcKind::MethodNotDefinedExc)
    } else if i == 14 {
        Builtin::Exc(ExcKind::TypeMismatchExc)
    } else if i == 15 {
        Builtin::Exc(ExcKind::KeyNotFoundExc)
    } else if i == 16 {
        Builtin::Exc(ExcKind::ValueExc)
    } else if i == 17 {
        Builtin::Exc(ExcKind::DivisionByZeroExc)
    } else if i == 18 {
        Builtin::Exc(ExcKind::AttrExc)
    } else {
        Builtin::Method
    }
}

fn builtin_numbered_exec(i: u32) -> (t: Builtin)
    requires
        i < 20,
    ensures
        t == builtin_numbered(i as int),
{
    match i {
        0 => Builtin::Object,
        1 => Builtin::Type,
        2 => Builtin::Int,
        3 => Builtin::Bool,
        4 => Builtin::Str,
        5 => Builtin::List,
        6 => Builtin::NoneType,
        7 => Builtin::Dict,
        8 => Builtin::Code,
        9 => Builtin::Fn,
        10 => Builtin::Exc(ExcKind::Exception),
        11 => Builtin::Exc(ExcKind::NameExc),
        12 => Builtin::Exc(ExcKind::OverflowExc),
        13 => Builtin::Exc(ExcKind::MethodNotDefinedExc),
        14 => Builtin::Exc(ExcKind::TypeMismatchExc),
        15 => Builtin::Exc(ExcKind::KeyNotFoundExc),
        16 => Builtin::Exc(ExcKind::ValueExc),
        17 => Builtin::Exc(ExcKind::DivisionByZeroExc),
        18 => Builtin::Exc(ExcKind::AttrExc),
        _ => Builtin::Method,
    }
}

/// Every built-in type, finished, in the order of their numbers
/// (`init_types`): the type at position `i` is numbered `i`.
pub fn init_types() -> (r: Vec<TypeObject>)
    ensures
        r.len() == 20,
        forall|i: int|
            0 <= i < 20 ==> {
                &&& (#[trigger] r@[i]).typeid == i
                &&& r@[i].slots == builtin_slots(builtin_numbered(i))
                &&& r@[i].typename@ == builtin_typename(builtin_numbered(i))
                &&& r@[i].dict is None
            },
{
    let mut r: Vec<TypeObject> = Vec::new();
    let mut i: u32 = 0;
    while i < 20
        invariant
            i <= 20,
            r.len() == i,
            forall|j: int|
                0 <= j < i ==> {
                    &&& (#[trigger] r@[j]).typeid == j
                    &&& r@[j].slots == builtin_slots(builtin_numbered(j))
                    &&& r@[j].typename@ == builtin_typename(builtin_numbered(j))
                    &&& r@[j].dict is None
                },
        decreases 20 - i,
    {
        let t = builtin_numbered_exec(i);
        r.push(builtin_type(t));
        i = i + 1;
    }
    r
}

// ---------------------------------------------------------------------------
// Classes and attributes.

/// Two optional dictionaries hold the same: both none, or both some with
/// the same entries and the same index.
pub open spec fn same_dict(a: Option<Dict>, b: Option<Dict>) -> bool {
    match (a, b) {
        (None, None) => true,
        (Some(x), Some(y)) => entries_view(x.entries@) == entries_view(y.entries@) && index_contents(x.index)
            == index_contents(y.index),
        _ => false,
    }
}

/// Two types are alike in everything: name, number, slots, dictionary, and
/// base by base.
pub open spec fn same_type(a: TypeObject, b: TypeObject) -> bool
    decreases a,
{
    &&& a.typename@ == b.typename@
    &&& a.typeid == b.typeid
    &&& a.slots == b.slots
    &&& same_dict(a.dict, b.dict)
    &&& a.bases.len() == b.bases.len()
    &&& forall|i: int| 0 <= i < a.bases.len() ==> same_type(#[trigger] a.bases@[i], b.bases@[i])
}

impl TypeObject {
    /// A copy of the type (its bases and dictionary copied too).
    pub fn duplicate(&self) -> (r: TypeObject)
        ensures
            same_type(r, *self),
        decreases self,
    {
        let mut bases: Vec<TypeObject> = Vec::new();
        let mut i: usize = 0;
        while i < self.bases.len()
            invariant
                i <= self.bases.len(),
                bases.len() == i,
                forall|j: int| 0 <= j < i ==> same_type(#[trigger] bases@[j], self.bases@[j]),
            decreases self.bases.len() - i,
        {
            bases.push(self.bases[i].duplicate());
            i = i + 1;
        }
        let dict = match &self.dict {
            None => None,
            Some(d) => Some(Dict { index: d.index.duplicate(), entries: duplicate_entries(&d.entries) }),
        };
        TypeObject { typename: self.typename.clone(), bases, typeid: self.typeid, dict, slots: self.slots }
    }
}

/// Whether a class dictionary holds a method named `name`: whether looking
/// the string up finds an entry (an entry of the same hash, whatever its
/// key).
pub open spec fn has_method(d: Dict, name: Seq<char>) -> bool {
    spec_dict_get(index_contents(d.index), entries_view(d.entries@), SValue::Str(name)) is Ok
}

pub open spec fn class_slot(d: Dict, name: Seq<char>, f: SlotFn) -> Option<SlotFn> {
    if has_method(d, name) {
        Some(f)
    } else {
        None
    }
}

/// The slots a class fills itself: those whose method its dictionary holds.
pub open spec fn class_slots(d: Dict) -> Slots {
    Slots {
        new: None,
        repr: class_slot(d, "repr"@, SlotFn::ClassRepr),
        str: class_slot(d, "str"@, SlotFn::ClassStr),
        abs: class_slot(d, "abs"@, SlotFn::ClassAbs),
        neg: class_slot(d, "neg"@, SlotFn::ClassNeg),
        hash_fn: class_slot(d, "hash"@, SlotFn::ClassHash),
        eq: class_slot(d, "eq"@, SlotFn::ClassEq),
        add: class_slot(d, "add"@, SlotFn::ClassAdd),
        sub: class_slot(d, "sub"@, SlotFn::ClassSub),
        mul: class_slot(d, "mul"@, SlotFn::ClassMul),
        div: class_slot(d, "div"@, SlotFn::ClassDiv),
        pow: class_slot(d, "pow"@, SlotFn::ClassPow),
        get: class_slot(d, "get"@, SlotFn::ClassGet),
        set: class_slot(d, "set"@, SlotFn::ClassSet),
        len: class_slot(d, "len"@, SlotFn::ClassLen),
        call: class_slot(d, "call"@, SlotFn::ClassCall),
        getattr: class_slot(d, "getattr"@, SlotFn::ClassGetattr),
        setattr: None,
        descrget: None,
        descrset: None,
    }
}

fn method_slot(d: &Dict, name: &str, f: SlotFn) -> (r: Option<SlotFn>)
    requires
        d.wf(),
    ensures
        r == class_slot(*d, name@, f),
{
    let key = Value::Str(name.to_owned());
    match d.get(&key) {
        Ok(_) => Some(f),
        Err(_) => None,
    }
}

/// Makes the type of a class named `name` with dictionary `dict`
/// (`create_class`): the slots whose methods `dict` holds, `object` as its
/// base, finished; it takes the next type number.
pub fn create_class(next_typeid: &mut u32, name: String, dict: Dict, object: &TypeObject) -> (r: TypeObject)
    requires
        *old(next_typeid) < u32::MAX,
        dict.wf(),
    ensures
        *final(next_typeid) == *old(next_typeid) + 1,
        r.typeid == *old(next_typeid),
        r.typename@ == name@,
        r.slots == spec_finalize(class_slots(dict), seq![object.slots]),
        r.dict == Some(dict),
        r.bases.len() == 1,
        same_type(r.bases@[0], *object),
{
    let slots = Slots {
        new: None,
        repr: method_slot(&dict, "repr", SlotFn::ClassRepr),
        str: method_slot(&dict, "str", SlotFn::ClassStr),
        abs: method_slot(&dict, "abs", SlotFn::ClassAbs),
        neg: method_slot(&dict, "neg", SlotFn::ClassNeg),
        hash_fn: method_slot(&dict, "hash", SlotFn::ClassHash),
        eq: method_slot(&dict, "eq", SlotFn::ClassEq),
        add: method_slot(&dict, "add", SlotFn::ClassAdd),
        sub: method_slot(&dict, "sub", SlotFn::ClassSub),
        mul: method_slot(&dict, "mul", SlotFn::ClassMul),
        div: method_slot(&dict, "div", SlotFn::ClassDiv),
        pow: method_slot(&dict, "pow", SlotFn::ClassPow),
        get: method_slot(&dict, "get", SlotFn::ClassGet),
        set: method_slot(&dict, "set", SlotFn::ClassSet),
        len: method_slot(&dict, "len", SlotFn::ClassLen),
        call: method_slot(&dict, "call", SlotFn::ClassCall),
        getattr: method_slot(&dict, "getattr", SlotFn::ClassGetattr),
        setattr: None,
        descrget: None,
        descrset: None,
    };
    let mut bases: Vec<TypeObject> = Vec::new();
    bases.push(object.duplicate());
    let id: u32 = *next_typeid;
    *next_typeid = id + 1;
    let mut tp = TypeObject { typename: name, bases, typeid: id, dict: Some(dict), slots };
    proof {
        assert(base_slots(tp.bases@) =~= seq![object.slots]);
    }
    finalize_type(&mut tp);
    tp
}

/// The message of the exception for a missing attribute.
pub open spec fn no_attr_msg(tname: Seq<char>, attr: SValue) -> Seq<char> {
    "Object of type '"@ + tname + "' has no attribute '"@ + spec_str(attr) + "'"@
}

/// What `generic_getattr` gives for attribute `attr` of an object of type
/// `tname` with dictionary `dict`: the value the dictionary holds for it;
/// the exception hashing `attr` raises, when it has no hash; else an
/// `AttrExc`.
pub open spec fn spec_getattr(tname: Seq<char>, dict: Option<Dict>, attr: SValue) -> Result<SValue, SValue> {
    match dict {
        None => Err(exc_value(ExcKind::AttrExc, no_attr_msg(tname, attr))),
        Some(d) => match spec_hash(attr) {
            Err(e) => Err(e),
            Ok(_) => match spec_dict_get(index_contents(d.index), entries_view(d.entries@), attr) {
                Ok(v) => Ok(v),
                Err(_) => Err(exc_value(ExcKind::AttrExc, no_attr_msg(tname, attr))),
            },
        },
    }
}

/// Looks attribute `attr` up (`generic_getattr`).
pub fn generic_getattr(tname: &String, dict: &Option<Dict>, attr: &Value) -> (r: Result<Value, Value>)
    requires
        dict matches Some(d) ==> d.wf(),
    ensures
        crate::ops::value_res(spec_getattr(tname@, *dict, attr@), r),
{
    let missing = {
        let t = object_str(attr);
        let mut m = concat3("Object of type '", tname.as_str(), "' has no attribute '");
        m.append(t.as_str());
        m.append("'");
        proof {
            assert(m@ =~= no_attr_msg(tname@, attr@));
        }
        exc_from_str(ExcKind::AttrExc, m)
    };
    match dict {
        None => Err(missing),
        Some(d) => match hash_value(attr) {
            Err(e) => Err(e),
            Ok(_) => match d.get(attr) {
                Ok(v) => Ok(v),
                Err(_) => Err(missing),
            },
        },
    }
}

/// The methods a class may define for the operations on its instances.
#[derive(Clone, Copy, PartialEq, Eq, Structural, Debug)]
pub enum ClassMethod {
    Repr,
    Str,
    Abs,
    Neg,
    Hash,
    Eq,
    Add,
    Sub,
    Mul,
    Div,
    Pow,
    GetItem,
    SetItem,
    Len,
    Call,
    Getattr,
}

/// The name under which a class dictionary holds method `m`.
pub open spec fn method_name(m: ClassMethod) -> Seq<char> {
    match m {
        ClassMethod::Repr => "repr"@,
        ClassMethod::Str => "str"@,
        ClassMethod::Abs => "abs"@,
        ClassMethod::Neg => "neg"@,
        ClassMethod::Hash => "hash"@,
        ClassMethod::Eq => "eq"@,
        ClassMethod::Add => "add"@,
        ClassMethod::Sub => "sub"@,
        ClassMethod::Mul => "mul"@,
        ClassMethod::Div => "div"@,
        ClassMethod::Pow => "pow"@,
        ClassMethod::GetItem => "get"@,
        ClassMethod::SetItem => "set"@,
        ClassMethod::Len => "len"@,
        ClassMethod::Call => "call"@,
        ClassMethod::Getattr => "getattr"@,
    }
}

/// The method that the exception for a missing method names: the method
/// itself, but `len` for a missing `call`.
pub open spec fn missing_name(m: ClassMethod) -> Seq<char> {
    if m is Call {
        "len"@
    } else {
        method_name(m)
    }
}

fn method_name_text(m: ClassMethod) -> (r: &'static str)
    ensures
        r@ == method_name(m),
{
    match m {
        ClassMethod::Repr => "repr",
        ClassMethod::Str => "str",
        ClassMethod::Abs => "abs",
        ClassMethod::Neg => "neg",
        ClassMethod::Hash => "hash",
        ClassMethod::Eq => "eq",
        ClassMethod::Add => "add",
        ClassMethod::Sub => "sub",
        ClassMethod::Mul => "mul",
        ClassMethod::Div => "div",
        ClassMethod::Pow => "pow",
        ClassMethod::GetItem => "get",
        ClassMethod::SetItem => "set",
        ClassMethod::Len => "len",
        ClassMethod::Call => "call",
        ClassMethod::Getattr => "getattr",
    }
}

/// What running method `m` of an instance of class `tname` with dictionary
/// `d` on `args` (the instance, then the operands) gives: the function the
/// dictionary holds for it called on `args`; a `MethodNotDefinedExc` when
/// what it holds cannot be called; when it holds nothing, the attribute
/// `args[1]` looked up for `getattr`, else a `MethodNotDefinedExc`.
pub open spec fn spec_class_method(tname: Seq<char>, d: Dict, m: ClassMethod, args: Seq<SValue>, fuel: nat) -> Result<
    MethodValue<SValue, SValue>,
    SRunError,
> {
    match spec_dict_get(index_contents(d.index), entries_view(d.entries@), SValue::Str(method_name(m))) {
        Ok(f) => match f {
            SValue::Fn(code, params, idx, _) => spec_fn_call(*code, params, idx, args, fuel),
            _ => Ok(
                MethodValue::Error(exc_value(ExcKind::MethodNotDefinedExc, not_defined_msg("call"@, spec_typename(f)))),
            ),
        },
        Err(_) => if m is Getattr {
            match spec_getattr(tname, Some(d), args[1]) {
                Ok(v) => Ok(MethodValue::Val(v)),
                Err(e) => Ok(MethodValue::Error(e)),
            }
        } else {
            Ok(MethodValue::Error(exc_value(ExcKind::MethodNotDefinedExc, not_defined_msg(missing_name(m), tname))))
        },
    }
}

/// Runs method `m` of an instance of the class `tp` (the `class_*` slots)
/// on `args`: the instance, then the operands.
pub fn class_method(tp: &TypeObject, m: ClassMethod, args: &Vec<Value>, fuel: u32) -> (r: Result<
    MethodValue<Value, Value>,
    RunError,
>)
    requires
        tp.dict matches Some(d) && d.wf(),
        m is Getattr ==> args.len() >= 2,
    ensures
        call_res(
            spec_class_method(tp.typename@, tp.dict->Some_0, m, args@.map_values(|v: Value| value_view(v)), fuel as nat),
            r,
        ),
{
    let d = match &tp.dict {
        Some(d) => d,
        None => {
            return vstd::pervasive::unreached();
        },
    };
    let name = method_name_text(m);
    match d.get(&Value::Str(name.to_owned())) {
        Ok(f) => match f {
            Value::Fn(fd) => fn_call(&fd, args, fuel),
            _ => Ok(MethodValue::Error(not_defined("call", &f))),
        },
        Err(_) => {
            if m == ClassMethod::Getattr {
                proof {
                    assert(args@.map_values(|v: Value| value_view(v))[1] == args@[1]@);
                }
                match generic_getattr(&tp.typename, &tp.dict, &args[1]) {
                    Ok(v) => Ok(MethodValue::Val(v)),
                    Err(e) => Ok(MethodValue::Error(e)),
                }
            } else {
                let missing: &str = if m == ClassMethod::Call {
                    "len"
                } else {
                    name
                };
                let mut msg = concat3("Method '", missing, "' is not defined for '");
                msg.append(tp.typename.as_str());
                msg.append("' type");
                proof {
                    assert(msg@ =~= not_defined_msg(missing_name(m), tp.typename@));
                }
                Ok(MethodValue::Error(exc_from_str(ExcKind::MethodNotDefinedExc, msg)))
            }
        },
    }
}

} // verus!
