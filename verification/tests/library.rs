use merlin::errors::{
    ErrorDetail, ErrorType, ReportFault, error_code, error_from_code, error_message, error_report, repr_err,
    source_lines,
};
use merlin::lexer::TokenType;
use merlin::objects::{Dict, ExcKind, MethodValue, Value};
use merlin::ops::{
    ArithOp, hash_value, int_abs, int_arith, int_neg, int_pow, int_to_string, list_get, list_len, list_set,
    object_repr, object_str, str_get, str_len, string_hash, typename, uint_to_string, value_eq,
};
use merlin::parser::Position;
use merlin::rc::{Mrc, MrcHeap, Weak};
use merlin::trc::{Trc, TrcHeap};
use merlin::types::{Builtin, SlotFn, builtin_type, create_class, generic_getattr, init_types};

fn s(t: &str) -> Value {
    Value::Str(t.to_string())
}

fn exc_of(r: Result<Value, Value>) -> (ExcKind, String) {
    match r {
        Err(Value::Exc(e)) => (e.kind, e.msg.clone()),
        other => panic!("expected an exception, got {:?}", other),
    }
}

#[test]
fn repr_err_texts() {
    assert_eq!(repr_err(ErrorType::UnexpectedToken), "Unexpected token: This token is not in an appropriate spot.");
    assert_eq!(
        repr_err(ErrorType::TrailingAtomics),
        "Trailing atomic tokens are not allowed: Code like: `1a` or `a 1` is not allowed."
    );
}

#[test]
fn error_codes_round_trip() {
    for tp in [
        ErrorType::UnexpectedToken,
        ErrorType::UnknownKeyword,
        ErrorType::UnexpectedEOF,
        ErrorType::FunctionNotExpression,
        ErrorType::TrailingAtomics,
    ] {
        assert_eq!(error_from_code(error_code(tp) as i32), Some(tp));
    }
    assert_eq!(error_from_code(0), None);
    assert_eq!(error_from_code(6), None);
    assert_eq!(error_code(ErrorType::UnexpectedEOF), 3);
}

#[test]
fn error_messages() {
    assert_eq!(
        error_message(ErrorDetail::Expected { expected: TokenType::RParen, got: TokenType::Comma }),
        "Invalid or unexpected token (expected 'r-paren', got 'comma')."
    );
    assert_eq!(error_message(ErrorDetail::Trailing), "Trailing atomic tokens are not allowed.");
}

#[test]
fn error_report_text() {
    let data = b"a = 1\nb = )\n".to_vec();
    let pos = Position { startcol: 4, endcol: 5, line: 1 };
    let r = error_report(&"Bad.".to_string(), ErrorType::UnexpectedToken, pos, &"f.me".to_string(), &data).unwrap();
    assert_eq!(r.header, "error[E001]: Bad.");
    assert_eq!(r.location, "f.me:2:5");
    assert_eq!(r.line_number, "2");
    assert_eq!(r.snippet, "b = )");
    assert_eq!(r.arrows, "    ^");
    let far = Position { startcol: 0, endcol: 1, line: 9 };
    assert!(matches!(
        error_report(&"x".to_string(), ErrorType::UnexpectedToken, far, &"f".to_string(), &data),
        Err(ReportFault::NoLine)
    ));
    let bad = vec![0xff, 0xfe];
    let p0 = Position { startcol: 0, endcol: 1, line: 0 };
    assert!(matches!(
        error_report(&"x".to_string(), ErrorType::UnexpectedToken, p0, &"f".to_string(), &bad),
        Err(ReportFault::NotUtf8)
    ));
}

#[test]
fn trailing_atomics_report() {
    let pos = Position { startcol: 0, endcol: 2, line: 0 };
    let r = error_report(&"msg".to_string(), ErrorType::TrailingAtomics, pos, &"t.me".to_string(), &b"1a".to_vec())
        .unwrap();
    assert_eq!(r.header, "error[E005]: msg");
    assert_eq!(r.location, "t.me:1:1");
    assert_eq!(format!("{} | {}", r.line_number, r.snippet), "1 | 1a");
    assert_eq!(r.arrows, "^^");
}

#[test]
fn lines_split_at_newlines() {
    let l = source_lines(&b"a\n\nbc\n".to_vec());
    assert_eq!(l, vec![b"a".to_vec(), vec![], b"bc".to_vec(), vec![]]);
    assert_eq!(source_lines(&vec![]), vec![Vec::<u8>::new()]);
}

#[test]
fn integer_text() {
    assert_eq!(int_to_string(0), "0");
    assert_eq!(int_to_string(-42), "-42");
    assert_eq!(int_to_string(isize::MIN), isize::MIN.to_string());
    assert_eq!(int_to_string(isize::MAX), isize::MAX.to_string());
    assert_eq!(uint_to_string(1234567890), "1234567890");
}

#[test]
fn reprs_and_strs() {
    assert_eq!(object_repr(&s("ab")), "\"ab\"");
    assert_eq!(object_str(&s("ab")), "ab");
    assert_eq!(object_repr(&Value::Bool(true)), "true");
    assert_eq!(object_repr(&Value::NoneObject), "None");
    assert_eq!(object_repr(&Value::List(vec![Value::Int(1), s("a")])), "[1, \"a\"]");
    assert_eq!(object_repr(&Value::List(vec![])), "[]");
    let mut d = Dict::new();
    d.insert(s("k"), s("v")).unwrap();
    d.insert(Value::Int(2), Value::Bool(false)).unwrap();
    let dv = Value::Dict(Box::new(d));
    assert_eq!(object_repr(&dv), "{\"k\": \"v\", 2: false}");
    assert_eq!(object_str(&dv), "{k: v, 2: false}");
    let e = Value::Exc(Box::new(merlin::objects::ExcData {
        kind: ExcKind::NameExc,
        msg: "m".to_string(),
        start: Position::zero(),
        end: Position::zero(),
    }));
    assert_eq!(object_repr(&e), "NameExc: \"m\"");
    assert_eq!(object_str(&e), "m");
    assert_eq!(typename(&e), "NameExc");
}

#[test]
fn equality_rules() {
    assert_eq!(value_eq(&Value::Int(1), &Value::Int(1)).ok(), Some(true));
    assert_eq!(value_eq(&Value::Int(1), &s("1")).ok(), Some(false));
    assert_eq!(value_eq(&Value::NoneObject, &Value::NoneObject).ok(), Some(true));
    assert_eq!(value_eq(&Value::List(vec![]), &Value::List(vec![])).ok(), Some(true));
    assert_eq!(value_eq(&Value::List(vec![Value::Int(1)]), &Value::List(vec![Value::Int(1)])).ok(), Some(false));
    assert_eq!(value_eq(&Value::List(vec![Value::Int(1)]), &Value::List(vec![Value::Int(2)])).ok(), Some(true));
    assert_eq!(value_eq(&Value::List(vec![Value::Int(1)]), &Value::List(vec![])).ok(), Some(false));
    assert_eq!(
        exc_of(value_eq(&Value::List(vec![]), &Value::Int(0)).map(Value::Bool)),
        (ExcKind::TypeMismatchExc, "Types do not match".to_string())
    );
    assert_eq!(value_eq(&Value::Dict(Box::new(Dict::new())), &Value::Int(0)).ok(), Some(false));
}

#[test]
fn arithmetic() {
    assert!(matches!(int_arith(ArithOp::Add, 2, &Value::Int(3)), Ok(Value::Int(5))));
    assert!(matches!(int_arith(ArithOp::Sub, 2, &Value::Int(3)), Ok(Value::Int(-1))));
    assert!(matches!(int_arith(ArithOp::Mul, -4, &Value::Int(3)), Ok(Value::Int(-12))));
    assert!(matches!(int_arith(ArithOp::Div, -7, &Value::Int(2)), Ok(Value::Int(-3))));
    assert_eq!(
        exc_of(int_arith(ArithOp::Div, 1, &Value::Int(0))),
        (ExcKind::DivisionByZeroExc, "Division by 0".to_string())
    );
    assert_eq!(
        exc_of(int_arith(ArithOp::Div, isize::MIN, &Value::Int(-1))),
        (ExcKind::OverflowExc, "int division overflow".to_string())
    );
    assert_eq!(
        exc_of(int_arith(ArithOp::Mul, isize::MAX, &Value::Int(2))),
        (ExcKind::OverflowExc, "int multiplication overflow".to_string())
    );
    assert_eq!(
        exc_of(int_arith(ArithOp::Sub, isize::MIN, &Value::Int(1))),
        (ExcKind::OverflowExc, "int subtraction overflow".to_string())
    );
    assert_eq!(
        exc_of(int_arith(ArithOp::Add, 1, &s("a"))),
        (ExcKind::TypeMismatchExc, "Types do not match".to_string())
    );
    assert!(matches!(int_neg(5), Ok(Value::Int(-5))));
    assert_eq!(
        exc_of(int_neg(isize::MIN)),
        (ExcKind::OverflowExc, "int negation overflow (value is i128 minimum)".to_string())
    );
    assert!(matches!(int_abs(-5), Ok(Value::Int(5))));
    assert!(int_abs(isize::MIN).is_err());
}

#[test]
fn powers() {
    assert!(matches!(int_pow(2, &Value::Int(10)), Ok(Value::Int(1024))));
    assert!(matches!(int_pow(-3, &Value::Int(3)), Ok(Value::Int(-27))));
    assert!(matches!(int_pow(5, &Value::Int(0)), Ok(Value::Int(1))));
    assert!(matches!(int_pow(-1, &Value::Int(-1)), Ok(Value::Int(-1))));
    assert_eq!(exc_of(int_pow(2, &Value::Int(200))), (ExcKind::OverflowExc, "int power overflow".to_string()));
    assert_eq!(
        exc_of(int_pow(2, &Value::Int(u32::MAX as isize))),
        (ExcKind::OverflowExc, "Power is too large".to_string())
    );
}

#[test]
fn hashes() {
    assert_eq!(string_hash(&"".to_string()), 0);
    assert_eq!(string_hash(&"a".to_string()), 97);
    assert_eq!(string_hash(&"ab".to_string()), 97 + 98 + 2);
    assert_eq!(string_hash(&"ba".to_string()), string_hash(&"ab".to_string()));
    let long = "x".repeat(300);
    assert_eq!(string_hash(&long), string_hash(&long.clone()));
    assert_eq!(hash_value(&Value::Bool(true)).ok(), Some(1));
    assert_eq!(hash_value(&Value::NoneObject).ok(), Some(-2));
    assert_eq!(hash_value(&Value::Int(7)).ok(), hash_value(&Value::Int(7)).ok());
    assert_eq!(
        exc_of(hash_value(&Value::List(vec![])).map(Value::Int)),
        (ExcKind::MethodNotDefinedExc, "Method 'hash' is not defined for 'list' type".to_string())
    );
}

#[test]
fn dict_get_after_insert() {
    let mut d = Dict::new();
    d.insert(s("a"), Value::Int(1)).unwrap();
    d.insert(Value::Int(5), s("five")).unwrap();
    assert_eq!(d.len(), 2);
    assert!(matches!(d.get(&s("a")), Ok(Value::Int(1))));
    d.insert(s("a"), Value::Int(2)).unwrap();
    assert_eq!(d.len(), 2);
    assert!(matches!(d.get(&s("a")), Ok(Value::Int(2))));
    // "ab" and "ba" share a hash, so they share an entry.
    d.insert(s("ab"), Value::Int(3)).unwrap();
    assert!(matches!(d.get(&s("ba")), Ok(Value::Int(3))));
    assert_eq!(exc_of(d.get(&s("zz"))), (ExcKind::KeyNotFoundExc, "Key 'zz' not found".to_string()));
    assert!(d.insert(Value::List(vec![]), Value::Int(0)).is_err());
}

#[test]
fn list_and_string_access() {
    let l = vec![Value::Int(10), Value::Int(20)];
    assert!(matches!(list_get(&l, &Value::Int(1)), Ok(Value::Int(20))));
    assert!(matches!(list_get(&l, &Value::Int(-1)), Ok(Value::Int(20))));
    assert_eq!(
        exc_of(list_get(&l, &Value::Int(2))),
        (ExcKind::ValueExc, "Index out of range: maximum index is '2', but got '2'".to_string())
    );
    assert_eq!(
        exc_of(list_get(&l, &s("x"))),
        (ExcKind::TypeMismatchExc, "Expected 'int' index, got 'str'".to_string())
    );
    assert_eq!(
        exc_of(list_set(&l, &Value::Int(0), &Value::Int(1))),
        (ExcKind::TypeMismatchExc, "Expected 'int' index, got 'int'".to_string())
    );
    assert!(matches!(list_len(&l), Value::Int(2)));
    let t = "héllo".to_string();
    assert!(matches!(str_len(&t), Value::Int(6)));
    match str_get(&t, &Value::Int(1)) {
        Ok(Value::Str(g)) => assert_eq!(g, "é"),
        other => panic!("{:?}", other),
    }
    assert_eq!(
        exc_of(str_get(&t, &Value::Int(9))),
        (ExcKind::ValueExc, "Index out of range: maximum index is '6', but got '9'".to_string())
    );
}

#[test]
fn method_values() {
    let v: MethodValue<i32, i32> = MethodValue::Val(3);
    assert!(v.is_some());
    assert!(!v.is_error());
    assert_eq!(v.unwrap(), 3);
    let e: MethodValue<i32, i32> = MethodValue::Error(4);
    assert!(e.is_error());
    assert_eq!(e.unwrap_err(), 4);
}

#[test]
fn builtin_slots() {
    let int = builtin_type(Builtin::Int);
    assert_eq!(int.typeid, 2);
    assert_eq!(int.typename, "int");
    assert_eq!(int.slots.add, Some(SlotFn::IntAdd));
    assert_eq!(int.slots.repr, Some(SlotFn::IntRepr));
    assert_eq!(int.slots.getattr, Some(SlotFn::GenericGetattr));
    let st = builtin_type(Builtin::Str);
    assert_eq!(st.slots.add, None);
    assert_eq!(st.slots.new, Some(SlotFn::StrNew));
    let name_exc = builtin_type(Builtin::Exc(ExcKind::NameExc));
    assert_eq!(name_exc.typeid, 11);
    assert_eq!(name_exc.slots.str, Some(SlotFn::ExcStr));
    assert_eq!(name_exc.bases.len(), 2);
}

#[test]
fn all_types_in_number_order() {
    let types = init_types();
    assert_eq!(types.len(), 20);
    for (i, t) in types.iter().enumerate() {
        assert_eq!(t.typeid as usize, i);
        assert!(t.dict.is_none());
    }
    assert_eq!(types[0].typename, "object");
    assert_eq!(types[4].typename, "str");
    assert_eq!(types[13].typename, "MethodNotDefinedExc");
    assert_eq!(types[19].typename, "fn");
    assert_eq!(types[2].slots.add, Some(SlotFn::IntAdd));
    assert_eq!(types[18].bases.len(), 2);
}

#[test]
fn classes_take_slots_from_their_methods() {
    let object = builtin_type(Builtin::Object);
    let mut d = Dict::new();
    d.insert(s("repr"), Value::Int(0)).unwrap();
    d.insert(s("call"), Value::Int(0)).unwrap();
    let mut next: u32 = 20;
    let c = create_class(&mut next, "Point".to_string(), d, &object);
    assert_eq!(next, 21);
    assert_eq!(c.typeid, 20);
    assert_eq!(c.slots.repr, Some(SlotFn::ClassRepr));
    assert_eq!(c.slots.call, Some(SlotFn::ClassCall));
    assert_eq!(c.slots.add, None);
    assert_eq!(c.slots.eq, Some(SlotFn::ObjectEq));
    assert_eq!(c.slots.getattr, Some(SlotFn::GenericGetattr));
    assert_eq!(c.bases.len(), 1);
    assert_eq!(c.bases[0].typeid, 0);
    assert_eq!(c.bases[0].typename, "object");
    assert_eq!(c.bases[0].slots, object.slots);
    let copy = c.duplicate();
    assert_eq!(copy.typeid, 20);
    assert_eq!(copy.bases.len(), 1);
    assert!(matches!(generic_getattr(&copy.typename, &copy.dict, &s("repr")), Ok(Value::Int(0))));
    let mut dv = Dict::new();
    dv.insert(s("k"), Value::Int(5)).unwrap();
    let v = Value::Dict(Box::new(dv));
    match v.duplicate() {
        Value::Dict(d2) => assert!(matches!(d2.get(&s("k")), Ok(Value::Int(5)))),
        other => panic!("{:?}", other),
    }
    let found = generic_getattr(&c.typename, &c.dict, &s("repr"));
    assert!(matches!(found, Ok(Value::Int(0))));
    assert_eq!(
        exc_of(generic_getattr(&c.typename, &c.dict, &s("zz"))),
        (ExcKind::AttrExc, "Object of type 'Point' has no attribute 'zz'".to_string())
    );
    assert_eq!(
        exc_of(generic_getattr(&"int".to_string(), &None, &s("x"))),
        (ExcKind::AttrExc, "Object of type 'int' has no attribute 'x'".to_string())
    );
    assert_eq!(
        exc_of(generic_getattr(&c.typename, &c.dict, &Value::List(vec![]))),
        (ExcKind::MethodNotDefinedExc, "Method 'hash' is not defined for 'list' type".to_string())
    );
}

#[test]
fn mrc_counts() {
    let mut h: MrcHeap<String> = MrcHeap::new();
    let a = Mrc::new(&mut h, "five".to_string());
    assert_eq!(Mrc::strong_count(&h, &a), 1);
    assert_eq!(Mrc::weak_count(&h, &a), 0);
    let b = Mrc::clone_ptr(&mut h, &a);
    assert!(Mrc::ptr_eq(&a, &b));
    assert_eq!(Mrc::strong_count(&h, &a), 2);
    let other = Mrc::new(&mut h, "five".to_string());
    assert!(!Mrc::ptr_eq(&a, &other));
    let w = Mrc::downgrade(&mut h, &a);
    assert_eq!(Mrc::weak_count(&h, &a), 1);
    assert_eq!(Weak::strong_count(&h, &w), 2);
    assert_eq!(Weak::weak_count(&h, &w), 1);
    // into_inner gives the value on the last strong pointer only.
    assert_eq!(Mrc::into_inner(&mut h, a), None);
    assert_eq!(Mrc::into_inner(&mut h, b), Some("five".to_string()));
    assert_eq!(Weak::strong_count(&h, &w), 0);
    assert_eq!(Weak::weak_count(&h, &w), 0);
    assert!(Weak::upgrade(&mut h, &w).is_none());
    Weak::drop(&mut h, w);
    assert!(h.boxes[0].is_none());
    let c = Mrc::clone_ptr(&mut h, &other);
    assert_eq!(Mrc::unwrap_or_clone(&mut h, other), "five".to_string());
    assert_eq!(Mrc::strong_count(&h, &c), 1);
    assert!(Mrc::try_unwrap(&mut h, c).is_ok());
    let n = Weak::new();
    assert_eq!(Weak::strong_count(&h, &n), 0);
    assert!(Weak::ptr_eq(&n, &Weak::new()));
    assert_eq!(Weak::into_raw(n), None);
    let d = Mrc::new(&mut h, "x".to_string());
    assert_eq!(Mrc::into_raw(d), 2);
}

#[test]
fn mrc_get_mut_only_when_unique() {
    let mut h: MrcHeap<i64> = MrcHeap::new();
    let x = Mrc::new(&mut h, 3);
    *Mrc::get_mut(&mut h, &x).unwrap() = 4;
    assert_eq!(h.boxes[x.ptr].as_ref().unwrap().value, Some(4));
    let y = Mrc::clone_ptr(&mut h, &x);
    assert!(Mrc::get_mut(&mut h, &x).is_none());
    Mrc::drop(&mut h, y);
    let w = Mrc::downgrade(&mut h, &x);
    assert!(Mrc::get_mut(&mut h, &x).is_none());
    Weak::drop(&mut h, w);
    assert!(Mrc::get_mut(&mut h, &x).is_some());
}

#[test]
fn mrc_make_mut_clones_when_shared() {
    let mut h: MrcHeap<i64> = MrcHeap::new();
    let mut data = Mrc::new(&mut h, 5);
    *Mrc::make_mut(&mut h, &mut data) += 1;
    assert_eq!(data.ptr, 0);
    let mut other_data = Mrc::clone_ptr(&mut h, &data);
    *Mrc::make_mut(&mut h, &mut data) += 1;
    *Mrc::make_mut(&mut h, &mut data) += 1;
    *Mrc::make_mut(&mut h, &mut other_data) *= 2;
    assert!(!Mrc::ptr_eq(&data, &other_data));
    assert_eq!(h.boxes[data.ptr].as_ref().unwrap().value, Some(8));
    assert_eq!(h.boxes[other_data.ptr].as_ref().unwrap().value, Some(12));
}

#[test]
fn mrc_make_mut_leaves_weak_pointers_behind() {
    let mut h: MrcHeap<i64> = MrcHeap::new();
    let mut data = Mrc::new(&mut h, 75);
    let weak = Mrc::downgrade(&mut h, &data);
    let up = Weak::upgrade(&mut h, &weak).unwrap();
    assert_eq!(h.boxes[up.ptr].as_ref().unwrap().value, Some(75));
    Mrc::drop(&mut h, up);
    *Mrc::make_mut(&mut h, &mut data) += 1;
    assert_eq!(h.boxes[data.ptr].as_ref().unwrap().value, Some(76));
    assert!(Weak::upgrade(&mut h, &weak).is_none());
}

#[test]
fn mrc_freed_after_all_pointers_go() {
    let mut h: MrcHeap<i64> = MrcHeap::new();
    let a = Mrc::new(&mut h, 1);
    let b = Mrc::clone_ptr(&mut h, &a);
    let w1 = Mrc::downgrade(&mut h, &a);
    let w2 = Mrc::downgrade(&mut h, &b);
    Weak::drop(&mut h, w1);
    Mrc::drop(&mut h, a);
    assert!(h.boxes[0].is_some());
    Mrc::drop(&mut h, b);
    assert!(h.boxes[0].is_some());
    assert_eq!(h.boxes[0].as_ref().unwrap().value, None);
    Weak::drop(&mut h, w2);
    assert!(h.boxes[0].is_none());
}

#[test]
fn weak_clones_count() {
    let mut h: MrcHeap<i64> = MrcHeap::new();
    let a = Mrc::new(&mut h, 1);
    let w = Mrc::downgrade(&mut h, &a);
    let w2 = Weak::clone_ptr(&mut h, &w);
    assert!(Weak::ptr_eq(&w, &w2));
    assert_eq!(Mrc::weak_count(&h, &a), 2);
    Weak::drop(&mut h, w2);
    assert_eq!(Mrc::weak_count(&h, &a), 1);
    let n = Weak::new();
    let n2 = Weak::clone_ptr(&mut h, &n);
    assert_eq!(Weak::into_raw(n2), None);
    let u = Weak::upgrade(&mut h, &w).unwrap();
    assert!(Mrc::ptr_eq(&u, &a));
    assert_eq!(Mrc::strong_count(&h, &a), 2);
}

#[test]
fn trc_counts() {
    let mut h: TrcHeap<i32> = TrcHeap::new();
    let t = Trc::new(&mut h, 100);
    assert_eq!(Trc::thread_count(&h, &t), 1);
    assert_eq!(Trc::atomic_count(&h, &t), 1);
    let t2 = Trc::clone_local(&mut h, &t);
    assert_eq!(Trc::thread_count(&h, &t), 2);
    let t3 = Trc::clone_across_thread(&mut h, &t);
    assert_eq!(Trc::atomic_count(&h, &t), 2);
    assert_eq!(Trc::thread_count(&h, &t3), 1);
    assert!(Trc::ptr_eq(&h, &t, &t3));
    assert_eq!(Trc::as_ptr(&h, &t), Trc::as_ptr(&h, &t3));
    Trc::set(&mut h, &t3, 200);
    assert_eq!(*Trc::get(&h, &t), 200);
    Trc::drop(&mut h, t3);
    assert_eq!(Trc::atomic_count(&h, &t), 1);
    Trc::drop(&mut h, t2);
    assert_eq!(Trc::thread_count(&h, &t), 1);
    Trc::drop(&mut h, t);
    assert!(h.shared[0].is_none());
}
