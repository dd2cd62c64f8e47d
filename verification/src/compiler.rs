//! Bytecode for the register machine, and the compiler from syntax trees.
use vstd::prelude::*;
use vstd::string::StrSliceExecFns;
use crate::objects::{SValue, Value, duplicate_values, lemma_values_view_len, lemma_values_view_push, values_view, value_view};
use crate::parser::{Node, NodeData, OpType, Position, SKind, SNode, lemma_nodes_view_len, node_view, nodes_view, strings_view};

verus! {

/// A register operand: a scratch register, a variable slot, or a constant.
#[derive(Clone, Copy, Debug, PartialEq, Eq, Structural)]
pub enum CompilerRegister {
    R(usize),
    V(usize),
    C(usize),
}

impl CompilerRegister {
    /// The index the operand names, whatever its kind.
    pub fn index(self) -> (r: usize)
        ensures
            r == match self {
                CompilerRegister::R(v) => v,
                CompilerRegister::V(v) => v,
                CompilerRegister::C(v) => v,
            },
    {
        match self {
            CompilerRegister::V(v) => v,
            CompilerRegister::R(v) => v,
            CompilerRegister::C(v) => v,
        }
    }
}

/// Where the value of a compiled expression stands, with the same for its
/// parts.
#[derive(Debug)]
pub struct RegisterContext {
    pub value: CompilerRegister,
    pub left: Option<CompilerRegister>,
    pub leftctx: Option<Box<RegisterContext>>,
    pub right: Option<CompilerRegister>,
    pub rightctx: Option<Box<RegisterContext>>,
    pub args: Option<Vec<RegisterContext>>,
    pub mapping: Option<(Vec<RegisterContext>, Vec<RegisterContext>)>,
    /// How many scratch registers this expression itself holds.
    pub registers: i32,
}

#[derive(Debug)]
pub enum CompilerInstruction {
    BinaryAdd { a: CompilerRegister, b: CompilerRegister, result: CompilerRegister, i: usize },
    BinarySub { a: CompilerRegister, b: CompilerRegister, result: CompilerRegister, i: usize },
    BinaryMul { a: CompilerRegister, b: CompilerRegister, result: CompilerRegister, i: usize },
    BinaryDiv { a: CompilerRegister, b: CompilerRegister, result: CompilerRegister, i: usize },
    CopyRegister { from: CompilerRegister, to: CompilerRegister, i: usize },
    /// Name, parameter names, code and parameter indices are constants.
    MakeFunction {
        nameidx: usize,
        argsidx: usize,
        codeidx: usize,
        idxsidx: usize,
        out: CompilerRegister,
    },
    Call {
        callableregister: CompilerRegister,
        result: CompilerRegister,
        arg_registers: Vec<RegisterContext>,
        i: usize,
    },
    Return { register: CompilerRegister, i: usize },
    UnaryNeg { a: CompilerRegister, result: CompilerRegister, i: usize },
    BuildList { result: CompilerRegister, value_registers: Vec<CompilerRegister>, i: usize },
    BuildDict {
        result: CompilerRegister,
        key_registers: Vec<CompilerRegister>,
        value_registers: Vec<CompilerRegister>,
        i: usize,
    },
}

/// A compiled unit.
#[derive(Debug)]
pub struct Bytecode {
    pub instructions: Vec<CompilerInstruction>,
    pub consts: Vec<Value>,
    /// The variable names by slot.
    pub names: Vec<(i32, String)>,
    /// The source range of each instruction.
    pub positions: Vec<(Position, Position)>,
    pub n_registers: i32,
    pub n_variables: i32,
}

// ---------------------------------------------------------------------------
// Mathematical values.
pub struct SCtx {
    pub value: CompilerRegister,
    pub left: Option<CompilerRegister>,
    pub leftctx: Option<Box<SCtx>>,
    pub right: Option<CompilerRegister>,
    pub rightctx: Option<Box<SCtx>>,
    pub args: Option<Seq<SCtx>>,
    pub mapping: Option<(Seq<SCtx>, Seq<SCtx>)>,
    pub registers: i32,
}

pub enum SInstr {
    BinaryAdd { a: CompilerRegister, b: CompilerRegister, result: CompilerRegister, i: usize },
    BinarySub { a: CompilerRegister, b: CompilerRegister, result: CompilerRegister, i: usize },
    BinaryMul { a: CompilerRegister, b: CompilerRegister, result: CompilerRegister, i: usize },
    BinaryDiv { a: CompilerRegister, b: CompilerRegister, result: CompilerRegister, i: usize },
    CopyRegister { from: CompilerRegister, to: CompilerRegister, i: usize },
    MakeFunction {
        nameidx: usize,
        argsidx: usize,
        codeidx: usize,
        idxsidx: usize,
        out: CompilerRegister,
    },
    Call {
        callableregister: CompilerRegister,
        result: CompilerRegister,
        arg_registers: Seq<SCtx>,
        i: usize,
    },
    Return { register: CompilerRegister, i: usize },
    UnaryNeg { a: CompilerRegister, result: CompilerRegister, i: usize },
    BuildList { result: CompilerRegister, value_registers: Seq<CompilerRegister>, i: usize },
    BuildDict {
        result: CompilerRegister,
        key_registers: Seq<CompilerRegister>,
        value_registers: Seq<CompilerRegister>,
        i: usize,
    },
}

pub struct SBytecode {
    pub instructions: Seq<SInstr>,
    pub consts: Seq<SValue>,
    pub names: Seq<(i32, Seq<char>)>,
    pub positions: Seq<(Position, Position)>,
    pub n_registers: i32,
    pub n_variables: i32,
}

pub open spec fn ctxs_view(s: Seq<RegisterContext>) -> Seq<SCtx>
    decreases s,
{
    if s.len() == 0 {
        seq![]
    } else {
        ctxs_view(s.drop_last()).push(ctx_view(s.last()))
    }
}

pub open spec fn ctx_view(c: RegisterContext) -> SCtx
    decreases c,
{
    SCtx {
        value: c.value,
        left: c.left,
        leftctx: match c.leftctx {
            Some(b) => Some(Box::new(ctx_view(*b))),
            None => None,
        },
        right: c.right,
        rightctx: match c.rightctx {
            Some(b) => Some(Box::new(ctx_view(*b))),
            None => None,
        },
        args: match c.args {
            Some(a) => Some(ctxs_view(a@)),
            None => None,
        },
        mapping: match c.mapping {
            Some((k, v)) => Some((ctxs_view(k@), ctxs_view(v@))),
            None => None,
        },
        registers: c.registers,
    }
}

pub open spec fn instr_view(ins: CompilerInstruction) -> SInstr {
    match ins {
        CompilerInstruction::BinaryAdd { a, b, result, i } => SInstr::BinaryAdd { a, b, result, i },
        CompilerInstruction::BinarySub { a, b, result, i } => SInstr::BinarySub { a, b, result, i },
        CompilerInstruction::BinaryMul { a, b, result, i } => SInstr::BinaryMul { a, b, result, i },
        CompilerInstruction::BinaryDiv { a, b, result, i } => SInstr::BinaryDiv { a, b, result, i },
        CompilerInstruction::CopyRegister { from, to, i } => SInstr::CopyRegister { from, to, i },
        CompilerInstruction::MakeFunction { nameidx, argsidx, codeidx, idxsidx, out } =>
            SInstr::MakeFunction { nameidx, argsidx, codeidx, idxsidx, out },
        CompilerInstruction::Call { callableregister, result, arg_registers, i } => SInstr::Call {
            callableregister,
            result,
            arg_registers: ctxs_view(arg_registers@),
            i,
        },
        CompilerInstruction::Return { register, i } => SInstr::Return { register, i },
        CompilerInstruction::UnaryNeg { a, result, i } => SInstr::UnaryNeg { a, result, i },
        CompilerInstruction::BuildList { result, value_registers, i } => SInstr::BuildList {
            result,
            value_registers: value_registers@,
            i,
        },
        CompilerInstruction::BuildDict { result, key_registers, value_registers, i } =>
            SInstr::BuildDict {
            result,
            key_registers: key_registers@,
            value_registers: value_registers@,
            i,
        },
    }
}

pub open spec fn instrs_view(s: Seq<CompilerInstruction>) -> Seq<SInstr> {
    s.map_values(|x: CompilerInstruction| instr_view(x))
}

pub open spec fn names_view(s: Seq<(i32, String)>) -> Seq<(i32, Seq<char>)> {
    s.map_values(|x: (i32, String)| (x.0, x.1@))
}

pub open spec fn bytecode_view(b: Bytecode) -> SBytecode
    decreases b,
{
    SBytecode {
        instructions: instrs_view(b.instructions@),
        consts: values_view(b.consts@),
        names: names_view(b.names@),
        positions: b.positions@,
        n_registers: b.n_registers,
        n_variables: b.n_variables,
    }
}


// ---------------------------------------------------------------------------
// What compiling produces.

/// Why an integer literal is not an `isize`.
#[derive(Clone, Copy, PartialEq, Eq, Structural, Debug)]
pub enum IntErrorKind {
    Empty,
    InvalidDigit,
    PosOverflow,
    NegOverflow,
}

/// Why compiling stopped.
#[derive(Clone, PartialEq, Eq, Debug)]
pub enum CompileError {
    /// A name was used before any value was stored under it.
    NameNotDefined { name: String, start: Position, end: Position },
    /// An integer literal is not an `isize`.
    InvalidInt { kind: IntErrorKind, start: Position, end: Position },
    /// A new constant was compared with a list constant, which the list
    /// type refuses (its `eq` raises on a value of another type).
    ConstCompare,
    /// A register or variable count went past `i32::MAX`.
    TooLarge,
}

pub enum SCompileError {
    NameNotDefined(Seq<char>, Position, Position),
    InvalidInt(IntErrorKind, Position, Position),
    ConstCompare,
    TooLarge,
}

pub open spec fn compile_error_view(e: CompileError) -> SCompileError {
    match e {
        CompileError::NameNotDefined { name, start, end } => SCompileError::NameNotDefined(
            name@,
            start,
            end,
        ),
        CompileError::InvalidInt { kind, start, end } => SCompileError::InvalidInt(kind, start, end),
        CompileError::ConstCompare => SCompileError::ConstCompare,
        CompileError::TooLarge => SCompileError::TooLarge,
    }
}

/// The state of a compiler.
pub struct CState {
    pub instrs: Seq<SInstr>,
    pub consts: Seq<SValue>,
    pub names: Seq<(Seq<char>, i32)>,
    pub positions: Seq<(Position, Position)>,
    pub rindex: i32,
    pub rmax: i32,
}

pub open spec fn digit_value(c: char) -> int {
    (c as int) - 48
}

pub open spec fn is_digit_char(c: char) -> bool {
    '0' <= c <= '9'
}

/// Decimal digits from `i` on, on top of `acc` (subtracted when `neg`).
pub open spec fn parse_digits(s: Seq<char>, i: int, acc: int, neg: bool) -> Result<isize, IntErrorKind>
    decreases s.len() - i,
{
    if i >= s.len() {
        Ok(acc as isize)
    } else if !is_digit_char(s[i]) {
        Err(IntErrorKind::InvalidDigit)
    } else if !neg && acc * 10 + digit_value(s[i]) > isize::MAX {
        Err(IntErrorKind::PosOverflow)
    } else if neg && acc * 10 - digit_value(s[i]) < isize::MIN {
        Err(IntErrorKind::NegOverflow)
    } else if neg {
        parse_digits(s, i + 1, acc * 10 - digit_value(s[i]), neg)
    } else {
        parse_digits(s, i + 1, acc * 10 + digit_value(s[i]), neg)
    }
}

/// `str::parse::<isize>`: an optional sign, then at least one decimal digit.
pub open spec fn parse_isize(s: Seq<char>) -> Result<isize, IntErrorKind> {
    if s.len() == 0 {
        Err(IntErrorKind::Empty)
    } else if s[0] == '+' || s[0] == '-' {
        if s.len() == 1 {
            Err(IntErrorKind::InvalidDigit)
        } else {
            parse_digits(s, 1, 0, s[0] == '-')
        }
    } else {
        parse_digits(s, 0, 0, false)
    }
}

/// Where a new constant `v` (an int or a string) already stands among
/// `consts` from `i` on; `Err` when a list constant is met first.
pub open spec fn find_const(consts: Seq<SValue>, v: SValue, i: int) -> Result<Option<int>, ()>
    decreases consts.len() - i,
{
    if i < 0 || i >= consts.len() {
        Ok(None)
    } else {
        match consts[i] {
            SValue::Int(x) => if v == SValue::Int(x) {
                Ok(Some(i))
            } else {
                find_const(consts, v, i + 1)
            },
            SValue::Str(x) => if v == SValue::Str(x) {
                Ok(Some(i))
            } else {
                find_const(consts, v, i + 1)
            },
            SValue::List(_) => Err(()),
            _ => find_const(consts, v, i + 1),
        }
    }
}

/// The slot of `name`, searching from `i`.
pub open spec fn find_name(names: Seq<(Seq<char>, i32)>, name: Seq<char>, i: int) -> Option<int>
    decreases names.len() - i,
{
    if i < 0 || i >= names.len() {
        None
    } else if names[i].0 == name {
        Some(i)
    } else {
        find_name(names, name, i + 1)
    }
}

pub proof fn lemma_find_name(names: Seq<(Seq<char>, i32)>, name: Seq<char>, i: int)
    requires
        0 <= i,
    ensures
        match find_name(names, name, i) {
            Some(j) => i <= j < names.len() && names[j].0 == name
                && forall|k: int| i <= k < j ==> names[k].0 != name,
            None => forall|k: int| i <= k < names.len() ==> names[k].0 != name,
        },
    decreases names.len() - i,
{
    if i < names.len() && names[i].0 != name {
        lemma_find_name(names, name, i + 1);
    }
}

pub proof fn lemma_find_const(consts: Seq<SValue>, v: SValue, i: int)
    requires
        0 <= i,
    ensures
        match find_const(consts, v, i) {
            Ok(Some(j)) => i <= j < consts.len() && consts[j] == v,
            _ => true,
        },
    decreases consts.len() - i,
{
    if i < consts.len() {
        lemma_find_const(consts, v, i + 1);
    }
}

/// `names` with `name` mapped to `v`: the entry replaced, or appended.
pub open spec fn names_insert(names: Seq<(Seq<char>, i32)>, name: Seq<char>, v: i32) -> Seq<(Seq<char>, i32)> {
    match find_name(names, name, 0) {
        Some(j) => names.update(j, (name, v)),
        None => names.push((name, v)),
    }
}

/// A slot number as an operand index; slots and registers are never
/// negative, and a negative one names index 0.
pub open spec fn slot(v: int) -> usize {
    if v < 0 || v > usize::MAX {
        0
    } else {
        v as usize
    }
}

pub open spec fn with_names(st: CState, names: Seq<(Seq<char>, i32)>) -> CState {
    CState { names, ..st }
}

pub open spec fn push_instr(st: CState, ins: SInstr, start: Position, end: Position) -> CState {
    CState { instrs: st.instrs.push(ins), positions: st.positions.push((start, end)), ..st }
}

pub open spec fn inc_reg(st: CState) -> CState {
    let r = (st.rindex + 1) as i32;
    CState { rindex: r, rmax: if r > st.rmax { r } else { st.rmax }, ..st }
}

pub open spec fn leaf_ctx(v: CompilerRegister, registers: i32) -> SCtx {
    SCtx {
        value: v,
        left: None,
        leftctx: None,
        right: None,
        rightctx: None,
        args: None,
        mapping: None,
        registers,
    }
}

/// Places constant `v` (deduplicated), returning the new state and its index.
pub open spec fn sc_const(st: CState, v: SValue) -> Result<(CState, int), SCompileError> {
    match find_const(st.consts, v, 0) {
        Err(_) => Err(SCompileError::ConstCompare),
        Ok(Some(i)) => Ok((st, i)),
        Ok(None) => Ok((CState { consts: st.consts.push(v), ..st }, st.consts.len() as int)),
    }
}

/// `compile_expr_values`: places the values of `e`, returning where they are.
pub open spec fn sc_values(st: CState, e: SNode) -> Result<(CState, SCtx), SCompileError>
    decreases e,
{
    let old = st.rindex;
    let r_old = CompilerRegister::R(slot(old as int));
    match e.kind {
        SKind::Decimal(text) => match parse_isize(text) {
            Err(k) => Err(SCompileError::InvalidInt(k, e.start, e.end)),
            Ok(n) => match sc_const(st, SValue::Int(n)) {
                Err(x) => Err(x),
                Ok((st1, idx)) => if st1.rindex == i32::MAX {
                    Err(SCompileError::TooLarge)
                } else {
                    Ok((inc_reg(st1), leaf_ctx(CompilerRegister::C(idx as usize), 1)))
                },
            },
        },
        SKind::Str(text) => match sc_const(st, SValue::Str(text)) {
            Err(x) => Err(x),
            Ok((st1, idx)) => if st1.rindex == i32::MAX {
                Err(SCompileError::TooLarge)
            } else {
                Ok((inc_reg(st1), leaf_ctx(CompilerRegister::C(idx as usize), 1)))
            },
        },
        SKind::Binary(l, r, _) => match sc_values(st, *l) {
            Err(x) => Err(x),
            Ok((st1, lc)) => match sc_values(st1, *r) {
                Err(x) => Err(x),
                Ok((st2, rc)) => Ok(
                    (
                        st2,
                        SCtx {
                            value: r_old,
                            left: Some(lc.value),
                            leftctx: Some(Box::new(lc)),
                            right: Some(rc.value),
                            rightctx: Some(Box::new(rc)),
                            args: None,
                            mapping: None,
                            registers: 0,
                        },
                    ),
                ),
            },
        },
        SKind::Store(_, x) => match sc_values(st, *x) {
            Err(err) => Err(err),
            Ok((st1, c)) => Ok(
                (
                    st1,
                    SCtx {
                        value: r_old,
                        left: Some(c.value),
                        leftctx: Some(Box::new(c)),
                        right: None,
                        rightctx: None,
                        args: None,
                        mapping: None,
                        registers: 0,
                    },
                ),
            ),
        },
        SKind::Identifier(name) => match find_name(st.names, name, 0) {
            None => Err(SCompileError::NameNotDefined(name, e.start, e.end)),
            Some(j) => Ok(
                (st, leaf_ctx(CompilerRegister::V(slot(st.names[j].1 as int)), 0)),
            ),
        },
        SKind::Call(callee, args) => match sc_values(st, *callee) {
            Err(x) => Err(x),
            Ok((st1, cc)) => match sc_values_seq(st1, args, seq![]) {
                Err(x) => Err(x),
                Ok((st2, acs)) => Ok(
                    (
                        st2,
                        SCtx {
                            value: r_old,
                            left: Some(cc.value),
                            leftctx: Some(Box::new(cc)),
                            right: None,
                            rightctx: None,
                            args: Some(acs),
                            mapping: None,
                            registers: 0,
                        },
                    ),
                ),
            },
        },
        SKind::Return(x) => match sc_values(st, *x) {
            Err(err) => Err(err),
            Ok((st1, c)) => Ok(
                (
                    st1,
                    SCtx {
                        value: c.value,
                        left: None,
                        leftctx: Some(Box::new(c)),
                        right: None,
                        rightctx: None,
                        args: None,
                        mapping: None,
                        registers: 0,
                    },
                ),
            ),
        },
        SKind::Unary(x, _) => match sc_values(st, *x) {
            Err(err) => Err(err),
            Ok((st1, c)) => Ok(
                (
                    st1,
                    SCtx {
                        value: r_old,
                        left: Some(c.value),
                        leftctx: Some(Box::new(c)),
                        right: None,
                        rightctx: None,
                        args: None,
                        mapping: None,
                        registers: 0,
                    },
                ),
            ),
        },
        SKind::List(items) => match sc_values_seq(st, items, seq![]) {
            Err(x) => Err(x),
            Ok((st1, cs)) => Ok(
                (
                    st1,
                    SCtx {
                        value: r_old,
                        left: None,
                        leftctx: None,
                        right: None,
                        rightctx: None,
                        args: Some(cs),
                        mapping: None,
                        registers: 0,
                    },
                ),
            ),
        },
        SKind::Dict(keys, values) => match sc_values_seq(st, keys, seq![]) {
            Err(x) => Err(x),
            Ok((st1, kcs)) => match sc_values_seq(st1, values, seq![]) {
                Err(x) => Err(x),
                Ok((st2, vcs)) => Ok(
                    (
                        st2,
                        SCtx {
                            value: r_old,
                            left: None,
                            leftctx: None,
                            right: None,
                            rightctx: None,
                            args: None,
                            mapping: Some((kcs, vcs)),
                            registers: 0,
                        },
                    ),
                ),
            },
        },
        _ => Ok((st, leaf_ctx(r_old, 0))),
    }
}

/// The values of `es` in order, after those whose contexts are `acc`.
pub open spec fn sc_values_seq(st: CState, es: Seq<SNode>, acc: Seq<SCtx>) -> Result<
    (CState, Seq<SCtx>),
    SCompileError,
>
    decreases es,
{
    if es.len() == 0 {
        Ok((st, acc))
    } else {
        match sc_values(st, es[0]) {
            Err(x) => Err(x),
            Ok((st1, c)) => sc_values_seq(st1, es.drop_first(), acc.push(c)),
        }
    }
}

pub open spec fn ctx_values(cs: Seq<SCtx>) -> Seq<CompilerRegister> {
    cs.map_values(|c: SCtx| c.value)
}

pub open spec fn opt_reg(r: Option<CompilerRegister>) -> CompilerRegister {
    match r {
        Some(x) => x,
        None => CompilerRegister::R(0),
    }
}

pub open spec fn dec_reg(st: CState, n: i32) -> Result<CState, SCompileError> {
    if st.rindex - n < i32::MIN || st.rindex - n > i32::MAX {
        Err(SCompileError::TooLarge)
    } else {
        Ok(CState { rindex: (st.rindex - n) as i32, ..st })
    }
}

/// `compile_expr_operation`: emits the instructions of `e` whose values
/// `ctx` placed.
pub open spec fn sc_op(st: CState, e: SNode, ctx: SCtx) -> Result<CState, SCompileError>
    decreases e,
{
    let pos_s = e.start;
    let pos_e = e.end;
    let body: Result<CState, SCompileError> = match e.kind {
        SKind::Binary(l, r, op) => match ctx.leftctx {
            None => Ok(st),
            Some(lc) => match sc_op(st, *l, *lc) {
                Err(x) => Err(x),
                Ok(st1) => match ctx.rightctx {
                    None => Ok(st1),
                    Some(rc) => match sc_op(st1, *r, *rc) {
                        Err(x) => Err(x),
                        Ok(st2) => {
                            let a = opt_reg(ctx.left);
                            let b = opt_reg(ctx.right);
                            let i = st2.instrs.len() as usize;
                            let ins = match op {
                                OpType::Add => SInstr::BinaryAdd { a, b, result: ctx.value, i },
                                OpType::Sub => SInstr::BinarySub { a, b, result: ctx.value, i },
                                OpType::Mul => SInstr::BinaryMul { a, b, result: ctx.value, i },
                                _ => SInstr::BinaryDiv { a, b, result: ctx.value, i },
                            };
                            Ok(push_instr(st2, ins, pos_s, pos_e))
                        },
                    },
                },
            },
        },
        SKind::Store(name, x) => match ctx.leftctx {
            None => Ok(st),
            Some(c) => match sc_op(st, *x, *c) {
                Err(err) => Err(err),
                Ok(st1) => if find_name(st1.names, name, 0) is None && st1.names.len() >= i32::MAX {
                    Err(SCompileError::TooLarge)
                } else {
                    let (names2, idx) = match find_name(st1.names, name, 0) {
                        Some(j) => (st1.names, st1.names[j].1 as int),
                        None => (st1.names.push((name, st1.names.len() as i32)), st1.names.len() as int),
                    };
                    let st2 = CState { names: names2, ..st1 };
                    let i = st2.instrs.len() as usize;
                    Ok(
                        push_instr(
                            st2,
                            SInstr::CopyRegister {
                                from: opt_reg(ctx.left),
                                to: CompilerRegister::V(slot(idx)),
                                i,
                            },
                            pos_s,
                            pos_e,
                        ),
                    )
                },
            },
        },
        SKind::Call(callee, args) => match ctx.leftctx {
            None => Ok(st),
            Some(c) => match sc_op(st, *callee, *c) {
                Err(x) => Err(x),
                Ok(st1) => {
                    let acs = match ctx.args {
                        Some(a) => a,
                        None => seq![],
                    };
                    match sc_op_seq(st1, args, acs) {
                        Err(x) => Err(x),
                        Ok(st2) => {
                            let i = st2.instrs.len() as usize;
                            Ok(
                                push_instr(
                                    st2,
                                    SInstr::Call {
                                        callableregister: opt_reg(ctx.left),
                                        result: ctx.value,
                                        arg_registers: acs,
                                        i,
                                    },
                                    pos_s,
                                    pos_e,
                                ),
                            )
                        },
                    }
                },
            },
        },
        SKind::Return(x) => match ctx.leftctx {
            None => Ok(st),
            Some(c) => match sc_op(st, *x, *c) {
                Err(err) => Err(err),
                Ok(st1) => {
                    let i = st1.instrs.len() as usize;
                    Ok(push_instr(st1, SInstr::Return { register: ctx.value, i }, pos_s, pos_e))
                },
            },
        },
        SKind::Unary(x, op) => match ctx.leftctx {
            None => Ok(st),
            Some(c) => match sc_op(st, *x, *c) {
                Err(err) => Err(err),
                Ok(st1) => if op == OpType::Add {
                    let i = st1.instrs.len() as usize;
                    Ok(
                        push_instr(
                            st1,
                            SInstr::UnaryNeg { a: opt_reg(ctx.left), result: ctx.value, i },
                            pos_s,
                            pos_e,
                        ),
                    )
                } else {
                    Ok(st1)
                },
            },
        },
        SKind::List(items) => {
            let cs = match ctx.args {
                Some(a) => a,
                None => seq![],
            };
            match sc_op_seq(st, items, cs) {
                Err(x) => Err(x),
                Ok(st1) => {
                    let i = st1.instrs.len() as usize;
                    Ok(
                        push_instr(
                            st1,
                            SInstr::BuildList { result: ctx.value, value_registers: ctx_values(cs), i },
                            pos_s,
                            pos_e,
                        ),
                    )
                },
            }
        },
        SKind::Dict(keys, values) => {
            let (kcs, vcs) = match ctx.mapping {
                Some(m) => m,
                None => (seq![], seq![]),
            };
            match sc_op_seq(st, keys, kcs) {
                Err(x) => Err(x),
                Ok(st1) => match sc_op_seq(st1, values, vcs) {
                    Err(x) => Err(x),
                    Ok(st2) => {
                        let i = st2.instrs.len() as usize;
                        Ok(
                            push_instr(
                                st2,
                                SInstr::BuildDict {
                                    result: ctx.value,
                                    key_registers: ctx_values(kcs),
                                    value_registers: ctx_values(vcs),
                                    i,
                                },
                                pos_s,
                                pos_e,
                            ),
                        )
                    },
                },
            }
        },
        _ => Ok(st),
    };
    match body {
        Err(x) => Err(x),
        Ok(st3) => dec_reg(st3, ctx.registers),
    }
}

/// The operations of `es` paired with `cs` (as far as both go).
pub open spec fn sc_op_seq(st: CState, es: Seq<SNode>, cs: Seq<SCtx>) -> Result<CState, SCompileError>
    decreases es,
{
    if es.len() == 0 || cs.len() == 0 {
        Ok(st)
    } else {
        match sc_op(st, es[0], cs[0]) {
            Err(x) => Err(x),
            Ok(st1) => sc_op_seq(st1, es.drop_first(), cs.drop_first()),
        }
    }
}


/// The variable slots of a function's parameters: each parameter maps to
/// `slot` (the number of names of the enclosing unit), later ones replacing
/// earlier ones of the same name.
pub open spec fn param_names(args: Seq<Seq<char>>, slot: i32) -> Seq<(Seq<char>, i32)>
    decreases args.len(),
{
    if args.len() == 0 {
        seq![]
    } else {
        names_insert(param_names(args.drop_last(), slot), args.last(), slot)
    }
}

pub open spec fn str_values(args: Seq<Seq<char>>) -> Seq<SValue> {
    args.map_values(|a: Seq<char>| SValue::Str(a))
}

pub open spec fn index_values(n: nat) -> Seq<SValue> {
    Seq::new(n, |i: int| SValue::Int(i as isize))
}

/// Slot to name, the later name winning for a slot held by several.
pub open spec fn invert_names(names: Seq<(Seq<char>, i32)>) -> Seq<(i32, Seq<char>)>
    decreases names.len(),
{
    if names.len() == 0 {
        seq![]
    } else {
        let prev = invert_names(names.drop_last());
        let (k, v) = names.last();
        match find_slot(prev, v, 0) {
            Some(j) => prev.update(j, (v, k)),
            None => prev.push((v, k)),
        }
    }
}

pub open spec fn find_slot(names: Seq<(i32, Seq<char>)>, v: i32, i: int) -> Option<int>
    decreases names.len() - i,
{
    if i < 0 || i >= names.len() {
        None
    } else if names[i].0 == v {
        Some(i)
    } else {
        find_slot(names, v, i + 1)
    }
}

pub proof fn lemma_find_slot(names: Seq<(i32, Seq<char>)>, v: i32, i: int)
    requires
        0 <= i,
    ensures
        match find_slot(names, v, i) {
            Some(j) => i <= j < names.len() && names[j].0 == v
                && forall|k: int| i <= k < j ==> names[k].0 != v,
            None => forall|k: int| i <= k < names.len() ==> names[k].0 != v,
        },
    decreases names.len() - i,
{
    if i < names.len() && names[i].0 != v {
        lemma_find_slot(names, v, i + 1);
    }
}

pub open spec fn empty_state(names: Seq<(Seq<char>, i32)>) -> CState {
    CState { instrs: seq![], consts: seq![], names, positions: seq![], rindex: 0, rmax: 0 }
}

/// `compile_statement`.
pub open spec fn sc_statement(st: CState, e: SNode) -> Result<CState, SCompileError>
    decreases e, 0nat,
{
    match e.kind {
        SKind::Function(name, args, code) => {
            if st.names.len() >= i32::MAX || st.consts.len() + 4 > usize::MAX {
                Err(SCompileError::TooLarge)
            } else {
                let nameidx = st.consts.len();
                let argsidx = nameidx + 1;
                let idxsidx = nameidx + 2;
                let codeidx = nameidx + 3;
                let local = param_names(args, st.names.len() as i32);
                match sc_generate(empty_state(local), code) {
                    Err(x) => Err(x),
                    Ok(bc) => {
                        let consts = st.consts.push(SValue::Str(name)).push(
                            SValue::List(str_values(args)),
                        ).push(SValue::List(index_values(args.len()))).push(
                            SValue::Code(Box::new(bc)),
                        );
                        let st1 = CState { consts, ..st };
                        if st1.rindex == i32::MAX {
                            Err(SCompileError::TooLarge)
                        } else {
                            let st2 = inc_reg(
                                push_instr(
                                    st1,
                                    SInstr::MakeFunction {
                                        nameidx: nameidx as usize,
                                        argsidx: argsidx as usize,
                                        codeidx: codeidx as usize,
                                        idxsidx: idxsidx as usize,
                                        out: CompilerRegister::R(slot(st1.rindex as int)),
                                    },
                                    e.start,
                                    e.end,
                                ),
                            );
                            let names2 = names_insert(st2.names, name, st2.names.len() as i32);
                            let st3 = CState { names: names2, ..st2 };
                            let st4 = push_instr(
                                st3,
                                SInstr::CopyRegister {
                                    from: CompilerRegister::R(slot(st3.rindex - 1)),
                                    to: CompilerRegister::V((names2.len() - 1) as usize),
                                    i: st3.instrs.len() as usize,
                                },
                                e.start,
                                e.end,
                            );
                            dec_reg(st4, 1)
                        }
                    },
                }
            }
        },
        _ => match sc_values(st, e) {
            Err(x) => Err(x),
            Ok((st1, ctx)) => sc_op(st1, e, ctx),
        },
    }
}

pub open spec fn sc_statements(st: CState, es: Seq<SNode>) -> Result<CState, SCompileError>
    decreases es, 0nat,
{
    if es.len() == 0 {
        Ok(st)
    } else {
        match sc_statement(st, es[0]) {
            Err(x) => Err(x),
            Ok(st1) => sc_statements(st1, es.drop_first()),
        }
    }
}

/// `generate_bytecode`: the statements compiled from state `st`, as a unit.
pub open spec fn sc_generate(st: CState, es: Seq<SNode>) -> Result<SBytecode, SCompileError>
    decreases es, 1nat,
{
    match sc_statements(st, es) {
        Err(x) => Err(x),
        Ok(st1) => if st1.names.len() > i32::MAX {
            Err(SCompileError::TooLarge)
        } else {
            Ok(
                SBytecode {
                    instructions: st1.instrs,
                    consts: st1.consts,
                    names: invert_names(st1.names),
                    positions: st1.positions,
                    n_registers: st1.rmax,
                    n_variables: st1.names.len() as i32,
                },
            )
        },
    }
}

/// A tree the compiler accepts: no `-` operator (neither a negation nor a
/// binary operator of that kind), no class, and function definitions only
/// as statements.
pub open spec fn compilable_expr(e: SNode) -> bool
    decreases e,
{
    match e.kind {
        SKind::Decimal(_) | SKind::Str(_) | SKind::Identifier(_) => true,
        SKind::Binary(l, r, op) => op != OpType::Neg && compilable_expr(*l) && compilable_expr(*r),
        SKind::Store(_, x) => compilable_expr(*x),
        SKind::Call(c, args) => compilable_expr(*c) && compilable_exprs(args),
        SKind::Return(x) => compilable_expr(*x),
        SKind::Unary(x, op) => op == OpType::Add && compilable_expr(*x),
        SKind::List(items) => compilable_exprs(items),
        SKind::Dict(k, v) => compilable_exprs(k) && compilable_exprs(v),
        _ => false,
    }
}

pub open spec fn compilable_exprs(es: Seq<SNode>) -> bool
    decreases es,
{
    es.len() == 0 || (compilable_expr(es[0]) && compilable_exprs(es.drop_first()))
}

pub open spec fn compilable_statement(e: SNode) -> bool
    decreases e,
{
    match e.kind {
        SKind::Function(_, _, code) => compilable_statements(code),
        _ => compilable_expr(e),
    }
}

pub open spec fn compilable_statements(es: Seq<SNode>) -> bool
    decreases es,
{
    es.len() == 0 || (compilable_statement(es[0]) && compilable_statements(es.drop_first()))
}


/// Whether placing the values of `e` meets only nodes that hold values: no
/// function definition or class inside an expression.
pub open spec fn placeable_expr(e: SNode) -> bool
    decreases e,
{
    match e.kind {
        SKind::Decimal(_) | SKind::Str(_) | SKind::Identifier(_) => true,
        SKind::Binary(l, r, _) => placeable_expr(*l) && placeable_expr(*r),
        SKind::Store(_, x) => placeable_expr(*x),
        SKind::Call(c, args) => placeable_expr(*c) && placeable_exprs(args),
        SKind::Return(x) => placeable_expr(*x),
        SKind::Unary(x, _) => placeable_expr(*x),
        SKind::List(items) => placeable_exprs(items),
        SKind::Dict(k, v) => placeable_exprs(k) && placeable_exprs(v),
        _ => false,
    }
}

pub open spec fn placeable_exprs(es: Seq<SNode>) -> bool
    decreases es,
{
    es.len() == 0 || (placeable_expr(es[0]) && placeable_exprs(es.drop_first()))
}

proof fn lemma_compilable_placeable(e: SNode)
    ensures
        compilable_expr(e) ==> placeable_expr(e),
    decreases e,
{
    match e.kind {
        SKind::Binary(l, r, _) => {
            lemma_compilable_placeable(*l);
            lemma_compilable_placeable(*r);
        },
        SKind::Store(_, x) => lemma_compilable_placeable(*x),
        SKind::Call(c, args) => {
            lemma_compilable_placeable(*c);
            lemma_compilable_placeable_seq(args);
        },
        SKind::Return(x) => lemma_compilable_placeable(*x),
        SKind::Unary(x, _) => lemma_compilable_placeable(*x),
        SKind::List(items) => lemma_compilable_placeable_seq(items),
        SKind::Dict(k, v) => {
            lemma_compilable_placeable_seq(k);
            lemma_compilable_placeable_seq(v);
        },
        _ => {},
    }
}

proof fn lemma_compilable_placeable_seq(es: Seq<SNode>)
    ensures
        compilable_exprs(es) ==> placeable_exprs(es),
    decreases es,
{
    if es.len() > 0 {
        lemma_compilable_placeable(es[0]);
        lemma_compilable_placeable_seq(es.drop_first());
    }
}

proof fn lemma_compilable_each(es: Seq<SNode>)
    requires
        compilable_exprs(es),
    ensures
        forall|j: int| 0 <= j < es.len() ==> compilable_expr(#[trigger] es[j]),
    decreases es,
{
    if es.len() > 0 {
        lemma_compilable_each(es.drop_first());
        assert forall|j: int| 0 <= j < es.len() implies compilable_expr(#[trigger] es[j]) by {
            if j > 0 {
                assert(es[j] == es.drop_first()[j - 1]);
            }
        }
    }
}

proof fn lemma_placeable_each(es: Seq<SNode>)
    requires
        placeable_exprs(es),
    ensures
        forall|j: int| 0 <= j < es.len() ==> placeable_expr(#[trigger] es[j]),
    decreases es,
{
    if es.len() > 0 {
        lemma_placeable_each(es.drop_first());
        assert forall|j: int| 0 <= j < es.len() implies placeable_expr(#[trigger] es[j]) by {
            if j > 0 {
                assert(es[j] == es.drop_first()[j - 1]);
            }
        }
    }
}


// ---------------------------------------------------------------------------
// The compiler.

/// A compiler: the unit being built and the register allocation state.
pub struct Compiler {
    pub instructions: Vec<CompilerInstruction>,
    pub consts: Vec<Value>,
    /// Variable names with their slots, in the order they were first stored.
    pub names: Vec<(String, i32)>,
    pub positions: Vec<(Position, Position)>,
    pub register_index: i32,
    pub register_max: i32,
}

pub open spec fn slots_view(s: Seq<(String, i32)>) -> Seq<(Seq<char>, i32)> {
    s.map_values(|x: (String, i32)| (x.0@, x.1))
}

impl Compiler {
    pub open spec fn cstate(&self) -> CState {
        CState {
            instrs: instrs_view(self.instructions@),
            consts: values_view(self.consts@),
            names: slots_view(self.names@),
            positions: self.positions@,
            rindex: self.register_index,
            rmax: self.register_max,
        }
    }

    /// A compiler with nothing compiled and no names.
    pub fn new() -> (c: Compiler)
        ensures
            c.cstate() == empty_state(seq![]),
    {
        let c = Compiler {
            instructions: Vec::new(),
            consts: Vec::new(),
            names: Vec::new(),
            positions: Vec::new(),
            register_index: 0,
            register_max: 0,
        };
        proof {
            assert(instrs_view(c.instructions@) =~= seq![]);
            assert(slots_view(c.names@) =~= seq![]);
        }
        c
    }
}

/// `str::parse::<isize>` on the text of a literal.
pub fn parse_int(s: &String) -> (r: Result<isize, IntErrorKind>)
    ensures
        r == parse_isize(s@),
{
    let n: usize = s.as_str().unicode_len();
    if n == 0 {
        return Err(IntErrorKind::Empty);
    }
    let first: char = s.as_str().get_char(0);
    let mut i: usize = 0;
    let mut neg: bool = false;
    if first == '+' || first == '-' {
        if n == 1 {
            return Err(IntErrorKind::InvalidDigit);
        }
        i = 1;
        neg = first == '-';
    }
    let ghost start: int = i as int;
    let mut acc: isize = 0;
    while i < n
        invariant
            n == s@.len(),
            start <= i <= n,
            parse_isize(s@) == parse_digits(s@, i as int, acc as int, neg),
            neg ==> acc <= 0,
            !neg ==> acc >= 0,
        decreases n - i,
    {
        let c: char = s.as_str().get_char(i);
        if !('0' <= c && c <= '9') {
            return Err(IntErrorKind::InvalidDigit);
        }
        let d: isize = (c as u32 - 48) as isize;
        assert(d == digit_value(c));
        let m = acc.checked_mul(10);
        match m {
            None => {
                return if neg {
                    Err(IntErrorKind::NegOverflow)
                } else {
                    Err(IntErrorKind::PosOverflow)
                };
            },
            Some(m) => {
                if neg {
                    match m.checked_sub(d) {
                        None => {
                            return Err(IntErrorKind::NegOverflow);
                        },
                        Some(v) => {
                            acc = v;
                        },
                    }
                } else {
                    match m.checked_add(d) {
                        None => {
                            return Err(IntErrorKind::PosOverflow);
                        },
                        Some(v) => {
                            acc = v;
                        },
                    }
                }
            },
        }
        i = i + 1;
    }
    Ok(acc)
}

impl Compiler {
    /// Where the new constant `v` already stands (`sc_const`'s search).
    fn find_const(&self, v: &Value) -> (r: Result<Option<usize>, ()>)
        requires
            v@ is Int || v@ is Str,
        ensures
            match find_const(self.cstate().consts, v@, 0) {
                Err(_) => r is Err,
                Ok(None) => r == Ok::<Option<usize>, ()>(None),
                Ok(Some(i)) => r == Ok::<Option<usize>, ()>(Some(i as usize)),
            },
    {
        let ghost cs = self.cstate().consts;
        proof {
            lemma_values_view_len(self.consts@);
        }
        let mut i: usize = 0;
        while i < self.consts.len()
            invariant
                cs == values_view(self.consts@),
                cs.len() == self.consts.len(),
                forall|j: int| 0 <= j < self.consts.len() ==> #[trigger] cs[j] == value_view(self.consts@[j]),
                i <= self.consts.len(),
                v@ is Int || v@ is Str,
                find_const(cs, v@, 0) == find_const(cs, v@, i as int),
            decreases self.consts.len() - i,
        {
            assert(cs[i as int] == value_view(self.consts@[i as int]));
            match &self.consts[i] {
                Value::Int(x) => {
                    match v {
                        Value::Int(y) => {
                            if *x == *y {
                                return Ok(Some(i));
                            }
                        },
                        _ => {},
                    }
                },
                Value::Str(x) => {
                    match v {
                        Value::Str(y) => {
                            if *x == *y {
                                return Ok(Some(i));
                            }
                        },
                        _ => {},
                    }
                },
                Value::List(_) => {
                    return Err(());
                },
                _ => {},
            }
            i = i + 1;
        }
        Ok(None)
    }

    /// Places constant `v`, reusing an equal one (`sc_const`).
    fn add_const(&mut self, v: Value) -> (r: Result<usize, CompileError>)
        requires
            v@ is Int || v@ is Str,
        ensures
            match sc_const(old(self).cstate(), v@) {
                Err(e) => r is Err && compile_error_view(r->Err_0) == e,
                Ok((st, i)) => r == Ok::<usize, CompileError>(i as usize) && final(self).cstate() == st,
            },
    {
        proof {
            lemma_find_const(self.cstate().consts, v@, 0);
        }
        match self.find_const(&v) {
            Err(_) => Err(CompileError::ConstCompare),
            Ok(Some(i)) => Ok(i),
            Ok(None) => {
                let n: usize = self.consts.len();
                proof {
                    lemma_values_view_push(self.consts@, v);
                    lemma_values_view_len(self.consts@);
                }
                self.consts.push(v);
                proof {
                    assert(self.cstate().consts == old(self).cstate().consts.push(v@));
                    assert(self.cstate() == (CState { consts: old(self).cstate().consts.push(v@), ..old(self).cstate() }));
                }
                Ok(n)
            },
        }
    }

    /// The slot of `name` (`find_name`).
    fn lookup(&self, name: &String) -> (r: Option<usize>)
        ensures
            match r {
                None => find_name(self.cstate().names, name@, 0) is None,
                Some(k) => find_name(self.cstate().names, name@, 0) == Some(k as int) && k < self.names.len(),
            },
    {
        let ghost ns = self.cstate().names;
        proof {
            lemma_find_name(ns, name@, 0);
        }
        let mut i: usize = 0;
        while i < self.names.len()
            invariant
                ns == slots_view(self.names@),
                i <= self.names.len(),
                forall|k: int| 0 <= k < i ==> ns[k].0 != name@,
                find_name(ns, name@, 0) == find_name(ns, name@, i as int),
            decreases self.names.len() - i,
        {
            if self.names[i].0 == *name {
                return Some(i);
            }
            i = i + 1;
        }
        None
    }

    /// Maps `name` to `v` (`names_insert`).
    fn insert_name(&mut self, name: &String, v: i32)
        ensures
            final(self).cstate() == with_names(old(self).cstate(), names_insert(old(self).cstate().names, name@, v)),
    {
        let ghost ns = self.cstate().names;
        proof {
            lemma_find_name(ns, name@, 0);
        }
        match self.lookup(name) {
            Some(j) => {
                let ghost old_names = self.names@;
                self.names.set(j, (name.clone(), v));
                proof {
                    assert(self.names@ == old_names.update(j as int, (*name, v)));
                    match find_name(ns, name@, 0) {
                        Some(k) => {
                            assert(0 <= k < ns.len());
                            assert(k as usize == j);
                        },
                        None => {},
                    }
                    assert(find_name(ns, name@, 0) == Some(j as int));
                    assert(slots_view(self.names@) =~= ns.update(j as int, (name@, v)));
                }
            },
            None => {
                self.names.push((name.clone(), v));
                proof {
                    assert(slots_view(self.names@) =~= names_insert(old(self).cstate().names, name@, v));
                }
            },
        }
    }
}

pub proof fn lemma_ctxs_view_push(s: Seq<RegisterContext>, c: RegisterContext)
    ensures
        ctxs_view(s.push(c)) == ctxs_view(s).push(ctx_view(c)),
{
    assert(s.push(c).drop_last() == s);
}

pub proof fn lemma_ctxs_view_len(s: Seq<RegisterContext>)
    ensures
        ctxs_view(s).len() == s.len(),
        forall|i: int| 0 <= i < s.len() ==> #[trigger] ctxs_view(s)[i] == ctx_view(s[i]),
    decreases s.len(),
{
    if s.len() > 0 {
        lemma_ctxs_view_len(s.drop_last());
    }
}

/// `r` is what `s` describes, and `after` the state it leaves.
pub open spec fn values_res(
    s: Result<(CState, SCtx), SCompileError>,
    r: Result<RegisterContext, CompileError>,
    after: CState,
) -> bool {
    match s {
        Ok((st, c)) => r is Ok && after == st && ctx_view(r->Ok_0) == c,
        Err(e) => r is Err && compile_error_view(r->Err_0) == e,
    }
}

pub open spec fn seq_res(
    s: Result<(CState, Seq<SCtx>), SCompileError>,
    r: Result<Vec<RegisterContext>, CompileError>,
    after: CState,
) -> bool {
    match s {
        Ok((st, c)) => r is Ok && after == st && ctxs_view(r->Ok_0@) == c,
        Err(e) => r is Err && compile_error_view(r->Err_0) == e,
    }
}

pub open spec fn state_res(
    s: Result<CState, SCompileError>,
    r: Result<(), CompileError>,
    after: CState,
) -> bool {
    match s {
        Ok(st) => r is Ok && after == st,
        Err(e) => r is Err && compile_error_view(r->Err_0) == e,
    }
}

pub fn slot_of(v: i32) -> (r: usize)
    ensures
        r == slot(v as int),
{
    if v < 0 {
        0
    } else {
        v as usize
    }
}

impl RegisterContext {
    /// A context with no parts.
    fn leaf(value: CompilerRegister, registers: i32) -> (c: RegisterContext)
        ensures
            ctx_view(c) == leaf_ctx(value, registers),
    {
        RegisterContext {
            value,
            left: None,
            leftctx: None,
            right: None,
            rightctx: None,
            args: None,
            mapping: None,
            registers,
        }
    }
}

impl Compiler {
    fn inc_reg(&mut self)
        requires
            old(self).register_index < i32::MAX,
        ensures
            final(self).cstate() == inc_reg(old(self).cstate()),
    {
        self.register_index = self.register_index + 1;
        if self.register_index > self.register_max {
            self.register_max = self.register_index;
        }
    }

    /// Places a constant operand and takes a register for it.
    fn const_operand(&mut self, v: Value) -> (r: Result<RegisterContext, CompileError>)
        requires
            v@ is Int || v@ is Str,
        ensures
            values_res(
                match sc_const(old(self).cstate(), v@) {
                    Err(x) => Err(x),
                    Ok((st1, idx)) => if st1.rindex == i32::MAX {
                        Err(SCompileError::TooLarge)
                    } else {
                        Ok((inc_reg(st1), leaf_ctx(CompilerRegister::C(idx as usize), 1)))
                    },
                },
                r,
                final(self).cstate(),
            ),
    {
        match self.add_const(v) {
            Err(e) => Err(e),
            Ok(idx) => {
                if self.register_index == i32::MAX {
                    return Err(CompileError::TooLarge);
                }
                self.inc_reg();
                Ok(RegisterContext::leaf(CompilerRegister::C(idx), 1))
            },
        }
    }

    /// `compile_expr_values`: places the values `expr` needs and says
    /// where they are.
    pub fn compile_expr_values(&mut self, expr: &Node) -> (r: Result<RegisterContext, CompileError>)
        requires
            placeable_expr(expr@),
        ensures
            values_res(sc_values(old(self).cstate(), expr@), r, final(self).cstate()),
        decreases expr,
    {
        let old_index: i32 = self.register_index;
        let r_old = CompilerRegister::R(slot_of(old_index));
        match &expr.data {
            NodeData::Decimal(d) => {
                match parse_int(&d.value) {
                    Err(k) => Err(CompileError::InvalidInt { kind: k, start: expr.start, end: expr.end }),
                    Ok(n) => self.const_operand(Value::Int(n)),
                }
            },
            NodeData::String(t) => self.const_operand(Value::Str(t.value.clone())),
            NodeData::Binary(b) => {
                let lc = match self.compile_expr_values(&b.left) {
                    Err(e) => {
                        return Err(e);
                    },
                    Ok(c) => c,
                };
                let rc = match self.compile_expr_values(&b.right) {
                    Err(e) => {
                        return Err(e);
                    },
                    Ok(c) => c,
                };
                Ok(RegisterContext {
                    value: r_old,
                    left: Some(lc.value),
                    leftctx: Some(Box::new(lc)),
                    right: Some(rc.value),
                    rightctx: Some(Box::new(rc)),
                    args: None,
                    mapping: None,
                    registers: 0,
                })
            },
            NodeData::StoreNode(sn) => {
                match self.compile_expr_values(&sn.expr) {
                    Err(e) => Err(e),
                    Ok(c) => Ok(RegisterContext {
                        value: r_old,
                        left: Some(c.value),
                        leftctx: Some(Box::new(c)),
                        right: None,
                        rightctx: None,
                        args: None,
                        mapping: None,
                        registers: 0,
                    }),
                }
            },
            NodeData::Identifier(id) => {
                proof {
                    lemma_find_name(self.cstate().names, id.name@, 0);
                }
                match self.lookup(&id.name) {
                    None => Err(CompileError::NameNotDefined {
                        name: id.name.clone(),
                        start: expr.start,
                        end: expr.end,
                    }),
                    Some(j) => {
                        let slot: i32 = self.names[j].1;
                        Ok(RegisterContext::leaf(CompilerRegister::V(slot_of(slot)), 0))
                    },
                }
            },
            NodeData::Call(c) => {
                let cc = match self.compile_expr_values(&c.ident) {
                    Err(e) => {
                        return Err(e);
                    },
                    Ok(x) => x,
                };
                match self.compile_values_seq(&c.args) {
                    Err(e) => Err(e),
                    Ok(acs) => Ok(RegisterContext {
                        value: r_old,
                        left: Some(cc.value),
                        leftctx: Some(Box::new(cc)),
                        right: None,
                        rightctx: None,
                        args: Some(acs),
                        mapping: None,
                        registers: 0,
                    }),
                }
            },
            NodeData::Return(rn) => {
                match self.compile_expr_values(&rn.expr) {
                    Err(e) => Err(e),
                    Ok(c) => Ok(RegisterContext {
                        value: c.value,
                        left: None,
                        leftctx: Some(Box::new(c)),
                        right: None,
                        rightctx: None,
                        args: None,
                        mapping: None,
                        registers: 0,
                    }),
                }
            },
            NodeData::Unary(u) => {
                match self.compile_expr_values(&u.expr) {
                    Err(e) => Err(e),
                    Ok(c) => Ok(RegisterContext {
                        value: r_old,
                        left: Some(c.value),
                        leftctx: Some(Box::new(c)),
                        right: None,
                        rightctx: None,
                        args: None,
                        mapping: None,
                        registers: 0,
                    }),
                }
            },
            NodeData::List(l) => {
                match self.compile_values_seq(&l.values) {
                    Err(e) => Err(e),
                    Ok(cs) => Ok(RegisterContext {
                        value: r_old,
                        left: None,
                        leftctx: None,
                        right: None,
                        rightctx: None,
                        args: Some(cs),
                        mapping: None,
                        registers: 0,
                    }),
                }
            },
            NodeData::Dict(d) => {
                let kcs = match self.compile_values_seq(&d.keys) {
                    Err(e) => {
                        return Err(e);
                    },
                    Ok(x) => x,
                };
                match self.compile_values_seq(&d.values) {
                    Err(e) => Err(e),
                    Ok(vcs) => Ok(RegisterContext {
                        value: r_old,
                        left: None,
                        leftctx: None,
                        right: None,
                        rightctx: None,
                        args: None,
                        mapping: Some((kcs, vcs)),
                        registers: 0,
                    }),
                }
            },
            _ => Ok(RegisterContext::leaf(r_old, 0)),
        }
    }

    /// The values of `es` in order (`sc_values_seq`).
    fn compile_values_seq(&mut self, es: &Vec<Node>) -> (r: Result<Vec<RegisterContext>, CompileError>)
        requires
            placeable_exprs(nodes_view(es@)),
        ensures
            seq_res(sc_values_seq(old(self).cstate(), nodes_view(es@), seq![]), r, final(self).cstate()),
        decreases es,
    {
        let ghost e = nodes_view(es@);
        let ghost st0 = self.cstate();
        proof {
            lemma_nodes_view_len(es@);
            assert(e.subrange(0, e.len() as int) == e);
            lemma_placeable_each(e);
        }
        let mut out: Vec<RegisterContext> = Vec::new();
        let mut i: usize = 0;
        while i < es.len()
            invariant
                e == nodes_view(es@),
                st0 == old(self).cstate(),
                e.len() == es.len(),
                forall|j: int| 0 <= j < es.len() ==> #[trigger] e[j] == node_view(es@[j]),
                forall|j: int| 0 <= j < es.len() ==> placeable_expr(#[trigger] e[j]),
                i <= es.len(),
                sc_values_seq(st0, e, seq![]) == sc_values_seq(
                    self.cstate(),
                    e.subrange(i as int, e.len() as int),
                    ctxs_view(out@),
                ),
            decreases es.len() - i,
        {
            let ghost rest = e.subrange(i as int, e.len() as int);
            proof {
                assert(rest[0] == e[i as int]);
                assert(rest.drop_first() == e.subrange(i + 1, e.len() as int));
            }
            let ghost before = self.cstate();
            match self.compile_expr_values(&es[i]) {
                Err(x) => {
                    assert(es@[i as int]@ == e[i as int]);
                    assert(rest.len() > 0);
                    assert(sc_values_seq(before, rest, ctxs_view(out@)) == match sc_values(before, rest[0]) {
                        Err(x) => Err(x),
                        Ok((st1, c)) => sc_values_seq(st1, rest.drop_first(), ctxs_view(out@).push(c)),
                    });
                    return Err(x);
                },
                Ok(c) => {
                    proof {
                        lemma_ctxs_view_push(out@, c);
                    }
                    out.push(c);
                },
            }
            i = i + 1;
        }
        proof {
            assert(e.subrange(i as int, e.len() as int).len() == 0);
        }
        Ok(out)
    }
}

impl RegisterContext {
    /// A copy of the context and all its parts.
    pub fn duplicate(&self) -> (r: RegisterContext)
        ensures
            ctx_view(r) == ctx_view(*self),
        decreases self,
    {
        let leftctx = match &self.leftctx {
            None => None,
            Some(b) => Some(Box::new(b.duplicate())),
        };
        let rightctx = match &self.rightctx {
            None => None,
            Some(b) => Some(Box::new(b.duplicate())),
        };
        let args = match &self.args {
            None => None,
            Some(a) => Some(duplicate_all(a)),
        };
        let mapping = match &self.mapping {
            None => None,
            Some(m) => Some((duplicate_all(&m.0), duplicate_all(&m.1))),
        };
        RegisterContext {
            value: self.value,
            left: self.left,
            leftctx,
            right: self.right,
            rightctx,
            args,
            mapping,
            registers: self.registers,
        }
    }
}

/// Copies of each context of `v`.
pub fn duplicate_all(v: &Vec<RegisterContext>) -> (r: Vec<RegisterContext>)
    ensures
        ctxs_view(r@) == ctxs_view(v@),
    decreases v,
{
    let mut out: Vec<RegisterContext> = Vec::new();
    let mut i: usize = 0;
    proof {
        lemma_ctxs_view_len(v@);
    }
    while i < v.len()
        invariant
            i <= v.len(),
            ctxs_view(out@) == ctxs_view(v@.subrange(0, i as int)),
        decreases v.len() - i,
    {
        let c = v[i].duplicate();
        proof {
            lemma_ctxs_view_push(out@, c);
            lemma_ctxs_view_push(v@.subrange(0, i as int), v@[i as int]);
            assert(v@.subrange(0, i as int).push(v@[i as int]) == v@.subrange(0, i + 1));
        }
        out.push(c);
        i = i + 1;
    }
    proof {
        assert(v@.subrange(0, i as int) == v@);
    }
    out
}

/// The value operand of each context.
fn operands_of(cs: &Vec<RegisterContext>) -> (r: Vec<CompilerRegister>)
    ensures
        r@ == ctx_values(ctxs_view(cs@)),
{
    proof {
        lemma_ctxs_view_len(cs@);
    }
    let mut out: Vec<CompilerRegister> = Vec::new();
    let mut i: usize = 0;
    while i < cs.len()
        invariant
            i <= cs.len(),
            ctxs_view(cs@).len() == cs.len(),
            forall|j: int| 0 <= j < cs.len() ==> #[trigger] ctxs_view(cs@)[j] == ctx_view(cs@[j]),
            out@ == ctx_values(ctxs_view(cs@)).subrange(0, i as int),
        decreases cs.len() - i,
    {
        out.push(cs[i].value);
        i = i + 1;
        proof {
            assert(out@ =~= ctx_values(ctxs_view(cs@)).subrange(0, i as int));
        }
    }
    proof {
        assert(out@ =~= ctx_values(ctxs_view(cs@)));
    }
    out
}

fn opt_operand(r: Option<CompilerRegister>) -> (o: CompilerRegister)
    ensures
        o == opt_reg(r),
{
    match r {
        Some(x) => x,
        None => CompilerRegister::R(0),
    }
}

impl Compiler {
    fn emit(&mut self, ins: CompilerInstruction, start: Position, end: Position)
        ensures
            final(self).cstate() == push_instr(old(self).cstate(), instr_view(ins), start, end),
    {
        self.instructions.push(ins);
        self.positions.push((start, end));
        proof {
            assert(instrs_view(self.instructions@) =~= instrs_view(old(self).instructions@).push(instr_view(ins)));
        }
    }

    fn release(&mut self, n: i32) -> (r: Result<(), CompileError>)
        ensures
            state_res(dec_reg(old(self).cstate(), n), r, final(self).cstate()),
    {
        let nr: i64 = self.register_index as i64 - n as i64;
        if nr < i32::MIN as i64 || nr > i32::MAX as i64 {
            return Err(CompileError::TooLarge);
        }
        self.register_index = nr as i32;
        Ok(())
    }

    /// `compile_expr_operation`: emits the instructions of `expr`, whose
    /// values `ctx` placed, then frees the registers `ctx` holds.
    pub fn compile_expr_operation(&mut self, expr: &Node, ctx: RegisterContext) -> (r: Result<(), CompileError>)
        requires
            compilable_expr(expr@),
        ensures
            state_res(sc_op(old(self).cstate(), expr@, ctx_view(ctx)), r, final(self).cstate()),
        decreases expr,
    {
        let ghost cv = ctx_view(ctx);
        let RegisterContext { value, left, leftctx, right, rightctx, args, mapping, registers } = ctx;
        let start = expr.start;
        let end = expr.end;
        let body: Result<(), CompileError> = match &expr.data {
            NodeData::Binary(b) => {
                match leftctx {
                    None => Ok(()),
                    Some(lc) => match self.compile_expr_operation(&b.left, *lc) {
                        Err(x) => Err(x),
                        Ok(()) => match rightctx {
                            None => Ok(()),
                            Some(rc) => match self.compile_expr_operation(&b.right, *rc) {
                                Err(x) => Err(x),
                                Ok(()) => {
                                    let a = opt_operand(left);
                                    let bb = opt_operand(right);
                                    let i: usize = self.instructions.len();
                                    let ins = match b.op {
                                        OpType::Add => CompilerInstruction::BinaryAdd { a, b: bb, result: value, i },
                                        OpType::Sub => CompilerInstruction::BinarySub { a, b: bb, result: value, i },
                                        OpType::Mul => CompilerInstruction::BinaryMul { a, b: bb, result: value, i },
                                        _ => CompilerInstruction::BinaryDiv { a, b: bb, result: value, i },
                                    };
                                    self.emit(ins, start, end);
                                    Ok(())
                                },
                            },
                        },
                    },
                }
            },
            NodeData::StoreNode(sn) => {
                match leftctx {
                    None => Ok(()),
                    Some(c) => match self.compile_expr_operation(&sn.expr, *c) {
                        Err(x) => Err(x),
                        Ok(()) => {
                            proof {
                                lemma_find_name(self.cstate().names, sn.name@, 0);
                            }
                            let ghost st1 = self.cstate();
                            let idx: i32 = match self.lookup(&sn.name) {
                                Some(j) => self.names[j].1,
                                None => {
                                    if self.names.len() >= i32::MAX as usize {
                                        return Err(CompileError::TooLarge);
                                    }
                                    let n: i32 = self.names.len() as i32;
                                    self.names.push((sn.name.clone(), n));
                                    proof {
                                        assert(slots_view(self.names@) =~= st1.names.push((sn.name@, n)));
                                    }
                                    n
                                },
                            };
                            let i: usize = self.instructions.len();
                            self.emit(
                                CompilerInstruction::CopyRegister {
                                    from: opt_operand(left),
                                    to: CompilerRegister::V(slot_of(idx)),
                                    i,
                                },
                                start,
                                end,
                            );
                            Ok(())
                        },
                    },
                }
            },
            NodeData::Call(c) => {
                match leftctx {
                    None => Ok(()),
                    Some(cc) => match self.compile_expr_operation(&c.ident, *cc) {
                        Err(x) => Err(x),
                        Ok(()) => {
                            let acs = match args {
                                Some(a) => a,
                                None => Vec::new(),
                            };
                            match self.compile_operations_seq(&c.args, &acs) {
                                Err(x) => Err(x),
                                Ok(()) => {
                                    let i: usize = self.instructions.len();
                                    self.emit(
                                        CompilerInstruction::Call {
                                            callableregister: opt_operand(left),
                                            result: value,
                                            arg_registers: acs,
                                            i,
                                        },
                                        start,
                                        end,
                                    );
                                    Ok(())
                                },
                            }
                        },
                    },
                }
            },
            NodeData::Return(rn) => {
                match leftctx {
                    None => Ok(()),
                    Some(c) => match self.compile_expr_operation(&rn.expr, *c) {
                        Err(x) => Err(x),
                        Ok(()) => {
                            let i: usize = self.instructions.len();
                            self.emit(CompilerInstruction::Return { register: value, i }, start, end);
                            Ok(())
                        },
                    },
                }
            },
            NodeData::Unary(u) => {
                match leftctx {
                    None => Ok(()),
                    Some(c) => match self.compile_expr_operation(&u.expr, *c) {
                        Err(x) => Err(x),
                        Ok(()) => {
                            if u.op == OpType::Add {
                                let i: usize = self.instructions.len();
                                self.emit(
                                    CompilerInstruction::UnaryNeg { a: opt_operand(left), result: value, i },
                                    start,
                                    end,
                                );
                            }
                            Ok(())
                        },
                    },
                }
            },
            NodeData::List(l) => {
                let cs = match args {
                    Some(a) => a,
                    None => Vec::new(),
                };
                match self.compile_operations_seq(&l.values, &cs) {
                    Err(x) => Err(x),
                    Ok(()) => {
                        let i: usize = self.instructions.len();
                        let regs = operands_of(&cs);
                        self.emit(CompilerInstruction::BuildList { result: value, value_registers: regs, i }, start, end);
                        Ok(())
                    },
                }
            },
            NodeData::Dict(d) => {
                let (kcs, vcs) = match mapping {
                    Some(m) => m,
                    None => (Vec::new(), Vec::new()),
                };
                match self.compile_operations_seq(&d.keys, &kcs) {
                    Err(x) => Err(x),
                    Ok(()) => match self.compile_operations_seq(&d.values, &vcs) {
                        Err(x) => Err(x),
                        Ok(()) => {
                            let i: usize = self.instructions.len();
                            let kr = operands_of(&kcs);
                            let vr = operands_of(&vcs);
                            self.emit(
                                CompilerInstruction::BuildDict {
                                    result: value,
                                    key_registers: kr,
                                    value_registers: vr,
                                    i,
                                },
                                start,
                                end,
                            );
                            Ok(())
                        },
                    },
                }
            },
            _ => Ok(()),
        };
        match body {
            Err(x) => Err(x),
            Ok(()) => self.release(registers),
        }
    }

    /// The operations of `es` with their contexts `cs`, pairwise
    /// (`sc_op_seq`).
    fn compile_operations_seq(&mut self, es: &Vec<Node>, cs: &Vec<RegisterContext>) -> (r: Result<(), CompileError>)
        requires
            compilable_exprs(nodes_view(es@)),
        ensures
            state_res(sc_op_seq(old(self).cstate(), nodes_view(es@), ctxs_view(cs@)), r, final(self).cstate()),
        decreases es,
    {
        let ghost e = nodes_view(es@);
        let ghost c = ctxs_view(cs@);
        let ghost st0 = self.cstate();
        proof {
            lemma_compilable_each(e);
            lemma_nodes_view_len(es@);
            lemma_ctxs_view_len(cs@);
            assert(e.subrange(0, e.len() as int) == e);
            assert(c.subrange(0, c.len() as int) == c);
        }
        let mut i: usize = 0;
        while i < es.len() && i < cs.len()
            invariant
                e == nodes_view(es@),
                c == ctxs_view(cs@),
                st0 == old(self).cstate(),
                e.len() == es.len(),
                c.len() == cs.len(),
                forall|j: int| 0 <= j < es.len() ==> #[trigger] e[j] == node_view(es@[j]),
                forall|j: int| 0 <= j < cs.len() ==> #[trigger] c[j] == ctx_view(cs@[j]),
                forall|j: int| 0 <= j < es.len() ==> compilable_expr(#[trigger] e[j]),
                i <= es.len(),
                i <= cs.len(),
                sc_op_seq(st0, e, c) == sc_op_seq(
                    self.cstate(),
                    e.subrange(i as int, e.len() as int),
                    c.subrange(i as int, c.len() as int),
                ),
            decreases es.len() - i,
        {
            let ghost re = e.subrange(i as int, e.len() as int);
            let ghost rc = c.subrange(i as int, c.len() as int);
            proof {
                assert(re[0] == e[i as int]);
                assert(rc[0] == c[i as int]);
                assert(re.drop_first() == e.subrange(i + 1, e.len() as int));
                assert(rc.drop_first() == c.subrange(i + 1, c.len() as int));
            }
            let ci = cs[i].duplicate();
            match self.compile_expr_operation(&es[i], ci) {
                Err(x) => {
                    return Err(x);
                },
                Ok(()) => {},
            }
            i = i + 1;
        }
        Ok(())
    }
}

pub fn find_slot_in(out: &Vec<(i32, String)>, v: i32) -> (r: Option<usize>)
    ensures
        match r {
            None => find_slot(names_view(out@), v, 0) is None,
            Some(k) => find_slot(names_view(out@), v, 0) == Some(k as int) && k < out.len(),
        },
{
    let ghost prev = names_view(out@);
    proof {
        lemma_find_slot(prev, v, 0);
    }
    let mut j: usize = 0;
    while j < out.len()
        invariant
            prev == names_view(out@),
            j <= out.len(),
            forall|k: int| 0 <= k < j ==> prev[k].0 != v,
        decreases out.len() - j,
    {
        if out[j].0 == v {
            assert(prev[j as int].0 == v);
            proof {
                lemma_find_slot(prev, v, 0);
                match find_slot(prev, v, 0) {
                    Some(k) => {
                        if k > j {
                            assert(prev[j as int].0 != v);
                        }
                    },
                    None => {
                        assert(prev[j as int].0 != v);
                    },
                }
            }
            return Some(j);
        }
        j = j + 1;
    }
    None
}

/// Slot to name for each slot of `names` (`invert_names`).
fn invert(names: &Vec<(String, i32)>) -> (r: Vec<(i32, String)>)
    ensures
        names_view(r@) == invert_names(slots_view(names@)),
{
    let ghost ns = slots_view(names@);
    let mut out: Vec<(i32, String)> = Vec::new();
    let mut i: usize = 0;
    proof {
        assert(ns.subrange(0, 0) =~= seq![]);
        assert(names_view(out@) =~= seq![]);
    }
    while i < names.len()
        invariant
            ns == slots_view(names@),
            i <= names.len(),
            names_view(out@) == invert_names(ns.subrange(0, i as int)),
        decreases names.len() - i,
    {
        let ghost prev = names_view(out@);
        let v: i32 = names[i].1;
        proof {
            lemma_find_slot(prev, v, 0);
            assert(ns.subrange(0, i + 1).drop_last() =~= ns.subrange(0, i as int));
            assert(ns.subrange(0, i + 1).last() == ns[i as int]);
        }
        let found = find_slot_in(&out, v);
        if let Some(j) = found {
            out.set(j, (v, names[i].0.clone()));
            proof {
                assert(names_view(out@) =~= prev.update(j as int, (v, ns[i as int].0)));
            }
        } else {
            out.push((v, names[i].0.clone()));
            proof {
                assert(names_view(out@) =~= prev.push((v, ns[i as int].0)));
            }
        }
        i = i + 1;
    }
    proof {
        assert(ns.subrange(0, i as int) =~= ns);
    }
    out
}

pub open spec fn bytecode_res(s: Result<SBytecode, SCompileError>, r: Result<Bytecode, CompileError>) -> bool {
    match s {
        Ok(b) => r is Ok && bytecode_view(r->Ok_0) == b,
        Err(e) => r is Err && compile_error_view(r->Err_0) == e,
    }
}

impl Compiler {
    /// `compile_statement`: compiles one statement of the unit.
    pub fn compile_statement(&mut self, expr: &Node) -> (r: Result<(), CompileError>)
        requires
            compilable_statement(expr@),
        ensures
            state_res(sc_statement(old(self).cstate(), expr@), r, final(self).cstate()),
        decreases expr,
    {
        match &expr.data {
            NodeData::Function(f) => {
                proof {
                    lemma_values_view_len(self.consts@);
                }
                if self.names.len() >= i32::MAX as usize || self.consts.len() > usize::MAX - 4 {
                    return Err(CompileError::TooLarge);
                }
                let ghost st = self.cstate();
                let ghost args = strings_view(f.args@);
                proof {
                    lemma_values_view_len(self.consts@);
                }
                let nameidx: usize = self.consts.len();
                let slot_n: i32 = self.names.len() as i32;
                let mut sub = Compiler::new();
                let mut i: usize = 0;
                while i < f.args.len()
                    invariant
                        args == strings_view(f.args@),
                        i <= f.args.len(),
                        sub.cstate() == empty_state(param_names(args.subrange(0, i as int), slot_n)),
                    decreases f.args.len() - i,
                {
                    proof {
                        assert(args.subrange(0, i + 1).drop_last() =~= args.subrange(0, i as int));
                        assert(args.subrange(0, i + 1).last() == f.args@[i as int]@);
                    }
                    sub.insert_name(&f.args[i], slot_n);
                    i = i + 1;
                }
                proof {
                    assert(args.subrange(0, i as int) =~= args);
                }
                let bc = match sub.generate_bytecode(&f.code) {
                    Err(x) => {
                        return Err(x);
                    },
                    Ok(b) => b,
                };
                let mut arg_strs: Vec<Value> = Vec::new();
                let mut indices: Vec<Value> = Vec::new();
                let mut k: usize = 0;
                while k < f.args.len()
                    invariant
                        args == strings_view(f.args@),
                        k <= f.args.len(),
                        values_view(arg_strs@) == str_values(args).subrange(0, k as int),
                        values_view(indices@) == index_values(args.len()).subrange(0, k as int),
                    decreases f.args.len() - k,
                {
                    let sv = Value::Str(f.args[k].clone());
                    let iv = Value::Int(k as isize);
                    proof {
                        lemma_values_view_push(arg_strs@, sv);
                        lemma_values_view_push(indices@, iv);
                        assert(str_values(args).subrange(0, k + 1) =~= str_values(args).subrange(0, k as int).push(sv@));
                        assert(index_values(args.len()).subrange(0, k + 1) =~= index_values(args.len()).subrange(0, k as int).push(iv@));
                    }
                    arg_strs.push(sv);
                    indices.push(iv);
                    k = k + 1;
                }
                proof {
                    assert(str_values(args).subrange(0, k as int) =~= str_values(args));
                    assert(index_values(args.len()).subrange(0, k as int) =~= index_values(args.len()));
                }
                let c1 = Value::Str(f.name.clone());
                let c2 = Value::List(arg_strs);
                let c3 = Value::List(indices);
                let c4 = Value::Code(Box::new(bc));
                proof {
                    lemma_values_view_push(self.consts@, c1);
                    lemma_values_view_push(self.consts@.push(c1), c2);
                    lemma_values_view_push(self.consts@.push(c1).push(c2), c3);
                    lemma_values_view_push(self.consts@.push(c1).push(c2).push(c3), c4);
                }
                self.consts.push(c1);
                self.consts.push(c2);
                self.consts.push(c3);
                self.consts.push(c4);
                if self.register_index == i32::MAX {
                    return Err(CompileError::TooLarge);
                }
                let out = CompilerRegister::R(slot_of(self.register_index));
                self.emit(
                    CompilerInstruction::MakeFunction {
                        nameidx,
                        argsidx: nameidx + 1,
                        codeidx: nameidx + 3,
                        idxsidx: nameidx + 2,
                        out,
                    },
                    expr.start,
                    expr.end,
                );
                self.inc_reg();
                let n: i32 = self.names.len() as i32;
                proof {
                    lemma_find_name(self.cstate().names, f.name@, 0);
                }
                self.insert_name(&f.name, n);
                assert(self.cstate().names.len() == self.names.len());
                let i2: usize = self.instructions.len();
                let from = CompilerRegister::R(slot_of(self.register_index - 1));
                let to = CompilerRegister::V(self.names.len() - 1);
                self.emit(CompilerInstruction::CopyRegister { from, to, i: i2 }, expr.start, expr.end);
                self.release(1)
            },
            _ => {
                proof {
                    lemma_compilable_placeable(expr@);
                }
                match self.compile_expr_values(expr) {
                    Err(x) => Err(x),
                    Ok(ctx) => self.compile_expr_operation(expr, ctx),
                }
            },
        }
    }

    /// `generate_bytecode`: compiles the statements of `ast` into a unit.
    /// The compiler's instructions, constants and positions move into it.
    pub fn generate_bytecode(&mut self, ast: &Vec<Node>) -> (r: Result<Bytecode, CompileError>)
        requires
            compilable_statements(nodes_view(ast@)),
        ensures
            bytecode_res(sc_generate(old(self).cstate(), nodes_view(ast@)), r),
        decreases ast,
    {
        let ghost e = nodes_view(ast@);
        let ghost st0 = self.cstate();
        proof {
            lemma_nodes_view_len(ast@);
            assert(e.subrange(0, e.len() as int) == e);
        }
        let mut i: usize = 0;
        while i < ast.len()
            invariant
                e == nodes_view(ast@),
                st0 == old(self).cstate(),
                e.len() == ast.len(),
                forall|j: int| 0 <= j < ast.len() ==> #[trigger] e[j] == node_view(ast@[j]),
                i <= ast.len(),
                compilable_statements(e.subrange(i as int, e.len() as int)),
                sc_generate(st0, e) == match sc_statements(self.cstate(), e.subrange(i as int, e.len() as int)) {
                    Err(x) => Err(x),
                    Ok(st1) => if st1.names.len() > i32::MAX {
                        Err(SCompileError::TooLarge)
                    } else {
                        Ok(
                            SBytecode {
                                instructions: st1.instrs,
                                consts: st1.consts,
                                names: invert_names(st1.names),
                                positions: st1.positions,
                                n_registers: st1.rmax,
                                n_variables: st1.names.len() as i32,
                            },
                        )
                    },
                },
            decreases ast.len() - i,
        {
            let ghost rest = e.subrange(i as int, e.len() as int);
            proof {
                assert(rest[0] == e[i as int]);
                assert(rest.drop_first() == e.subrange(i + 1, e.len() as int));
            }
            match self.compile_statement(&ast[i]) {
                Err(x) => {
                    return Err(x);
                },
                Ok(()) => {},
            }
            i = i + 1;
        }
        if self.names.len() > i32::MAX as usize {
            return Err(CompileError::TooLarge);
        }
        let names = invert(&self.names);
        let mut instructions: Vec<CompilerInstruction> = Vec::new();
        let mut consts: Vec<Value> = Vec::new();
        let mut positions: Vec<(Position, Position)> = Vec::new();
        std::mem::swap(&mut instructions, &mut self.instructions);
        std::mem::swap(&mut consts, &mut self.consts);
        std::mem::swap(&mut positions, &mut self.positions);
        Ok(Bytecode {
            instructions,
            consts,
            names,
            positions,
            n_registers: self.register_max,
            n_variables: self.names.len() as i32,
        })
    }
}

fn duplicate_operands(v: &Vec<CompilerRegister>) -> (r: Vec<CompilerRegister>)
    ensures
        r@ == v@,
{
    let mut out: Vec<CompilerRegister> = Vec::new();
    let mut i: usize = 0;
    while i < v.len()
        invariant
            i <= v.len(),
            out@ == v@.subrange(0, i as int),
        decreases v.len() - i,
    {
        out.push(v[i]);
        i = i + 1;
        proof {
            assert(out@ =~= v@.subrange(0, i as int));
        }
    }
    proof {
        assert(out@ =~= v@);
    }
    out
}

impl CompilerInstruction {
    /// A copy of the instruction.
    pub fn duplicate(&self) -> (r: CompilerInstruction)
        ensures
            instr_view(r) == instr_view(*self),
    {
        match self {
            CompilerInstruction::BinaryAdd { a, b, result, i } => CompilerInstruction::BinaryAdd {
                a: *a,
                b: *b,
                result: *result,
                i: *i,
            },
            CompilerInstruction::BinarySub { a, b, result, i } => CompilerInstruction::BinarySub {
                a: *a,
                b: *b,
                result: *result,
                i: *i,
            },
            CompilerInstruction::BinaryMul { a, b, result, i } => CompilerInstruction::BinaryMul {
                a: *a,
                b: *b,
                result: *result,
                i: *i,
            },
            CompilerInstruction::BinaryDiv { a, b, result, i } => CompilerInstruction::BinaryDiv {
                a: *a,
                b: *b,
                result: *result,
                i: *i,
            },
            CompilerInstruction::CopyRegister { from, to, i } => CompilerInstruction::CopyRegister {
                from: *from,
                to: *to,
                i: *i,
            },
            CompilerInstruction::MakeFunction { nameidx, argsidx, codeidx, idxsidx, out } =>
                CompilerInstruction::MakeFunction {
                nameidx: *nameidx,
                argsidx: *argsidx,
                codeidx: *codeidx,
                idxsidx: *idxsidx,
                out: *out,
            },
            CompilerInstruction::Call { callableregister, result, arg_registers, i } =>
                CompilerInstruction::Call {
                callableregister: *callableregister,
                result: *result,
                arg_registers: duplicate_all(arg_registers),
                i: *i,
            },
            CompilerInstruction::Return { register, i } => CompilerInstruction::Return {
                register: *register,
                i: *i,
            },
            CompilerInstruction::UnaryNeg { a, result, i } => CompilerInstruction::UnaryNeg {
                a: *a,
                result: *result,
                i: *i,
            },
            CompilerInstruction::BuildList { result, value_registers, i } =>
                CompilerInstruction::BuildList {
                result: *result,
                value_registers: duplicate_operands(value_registers),
                i: *i,
            },
            CompilerInstruction::BuildDict { result, key_registers, value_registers, i } =>
                CompilerInstruction::BuildDict {
                result: *result,
                key_registers: duplicate_operands(key_registers),
                value_registers: duplicate_operands(value_registers),
                i: *i,
            },
        }
    }
}

/// A copy of a compiled unit.
pub fn duplicate_bytecode(b: &Bytecode) -> (r: Bytecode)
    ensures
        bytecode_view(r) == bytecode_view(*b),
    decreases b,
{
    let mut instructions: Vec<CompilerInstruction> = Vec::new();
    let mut i: usize = 0;
    while i < b.instructions.len()
        invariant
            i <= b.instructions.len(),
            instructions.len() == i,
            forall|t: int| 0 <= t < i ==> instr_view(#[trigger] instructions@[t]) == instr_view(b.instructions@[t]),
        decreases b.instructions.len() - i,
    {
        let ins = b.instructions[i].duplicate();
        instructions.push(ins);
        i = i + 1;
    }
    proof {
        assert(instrs_view(instructions@) =~= instrs_view(b.instructions@));
    }
    let consts = duplicate_values(&b.consts);
    let mut names: Vec<(i32, String)> = Vec::new();
    let mut j: usize = 0;
    while j < b.names.len()
        invariant
            j <= b.names.len(),
            names.len() == j,
            forall|t: int| 0 <= t < j ==> (#[trigger] names@[t]).0 == b.names@[t].0 && names@[t].1@ == b.names@[t].1@,
        decreases b.names.len() - j,
    {
        names.push((b.names[j].0, b.names[j].1.clone()));
        j = j + 1;
    }
    proof {
        assert(names_view(names@) =~= names_view(b.names@));
    }
    let mut positions: Vec<(Position, Position)> = Vec::new();
    let mut k: usize = 0;
    while k < b.positions.len()
        invariant
            k <= b.positions.len(),
            positions@ == b.positions@.subrange(0, k as int),
        decreases b.positions.len() - k,
    {
        positions.push(b.positions[k]);
        k = k + 1;
        proof {
            assert(positions@ =~= b.positions@.subrange(0, k as int));
        }
    }
    proof {
        assert(positions@ =~= b.positions@);
    }
    Bytecode {
        instructions,
        consts,
        names,
        positions,
        n_registers: b.n_registers,
        n_variables: b.n_variables,
    }
}

/// Whether the compiler accepts an expression (`compilable_expr`).
pub fn expr_compilable(e: &Node) -> (r: bool)
    ensures
        r == compilable_expr(e@),
    decreases e,
{
    match &e.data {
        NodeData::Decimal(_) | NodeData::String(_) | NodeData::Identifier(_) => true,
        NodeData::Binary(b) => b.op != OpType::Neg && expr_compilable(&b.left) && expr_compilable(&b.right),
        NodeData::StoreNode(sn) => expr_compilable(&sn.expr),
        NodeData::Call(c) => expr_compilable(&c.ident) && exprs_compilable(&c.args),
        NodeData::Return(rn) => expr_compilable(&rn.expr),
        NodeData::Unary(u) => u.op == OpType::Add && expr_compilable(&u.expr),
        NodeData::List(l) => exprs_compilable(&l.values),
        NodeData::Dict(d) => exprs_compilable(&d.keys) && exprs_compilable(&d.values),
        _ => false,
    }
}

fn exprs_compilable(es: &Vec<Node>) -> (r: bool)
    ensures
        r == compilable_exprs(nodes_view(es@)),
    decreases es,
{
    let ghost e = nodes_view(es@);
    proof {
        lemma_nodes_view_len(es@);
        assert(e.subrange(0, e.len() as int) == e);
    }
    let mut i: usize = 0;
    while i < es.len()
        invariant
            e == nodes_view(es@),
            e.len() == es.len(),
            forall|j: int| 0 <= j < es.len() ==> #[trigger] e[j] == node_view(es@[j]),
            i <= es.len(),
            compilable_exprs(e) == compilable_exprs(e.subrange(i as int, e.len() as int)),
        decreases es.len() - i,
    {
        let ghost rest = e.subrange(i as int, e.len() as int);
        proof {
            assert(rest[0] == e[i as int]);
            assert(rest.drop_first() == e.subrange(i + 1, e.len() as int));
        }
        if !expr_compilable(&es[i]) {
            return false;
        }
        i = i + 1;
    }
    proof {
        assert(e.subrange(i as int, e.len() as int).len() == 0);
    }
    true
}

fn statement_compilable(e: &Node) -> (r: bool)
    ensures
        r == compilable_statement(e@),
    decreases e, 1nat,
{
    match &e.data {
        NodeData::Function(f) => statements_compilable(&f.code),
        _ => expr_compilable(e),
    }
}

/// Whether the compiler accepts a program (`compilable_statements`).
pub fn statements_compilable(es: &Vec<Node>) -> (r: bool)
    ensures
        r == compilable_statements(nodes_view(es@)),
    decreases es, 0nat,
{
    let ghost e = nodes_view(es@);
    proof {
        lemma_nodes_view_len(es@);
        assert(e.subrange(0, e.len() as int) == e);
    }
    let mut i: usize = 0;
    while i < es.len()
        invariant
            e == nodes_view(es@),
            e.len() == es.len(),
            forall|j: int| 0 <= j < es.len() ==> #[trigger] e[j] == node_view(es@[j]),
            i <= es.len(),
            compilable_statements(e) == compilable_statements(e.subrange(i as int, e.len() as int)),
        decreases es.len() - i,
    {
        let ghost rest = e.subrange(i as int, e.len() as int);
        proof {
            assert(rest[0] == e[i as int]);
            assert(rest.drop_first() == e.subrange(i + 1, e.len() as int));
        }
        if !statement_compilable(&es[i]) {
            return false;
        }
        i = i + 1;
    }
    proof {
        assert(e.subrange(i as int, e.len() as int).len() == 0);
    }
    true
}

// ---------------------------------------------------------------------------
// Every compiled instruction knows its place.

/// The number an instruction carries is its own index (`MakeFunction`
/// carries none).
pub open spec fn instr_index_ok(ins: SInstr, j: int) -> bool {
    match ins {
        SInstr::BinaryAdd { i, .. } => i == j as usize,
        SInstr::BinarySub { i, .. } => i == j as usize,
        SInstr::BinaryMul { i, .. } => i == j as usize,
        SInstr::BinaryDiv { i, .. } => i == j as usize,
        SInstr::CopyRegister { i, .. } => i == j as usize,
        SInstr::MakeFunction { .. } => true,
        SInstr::Call { i, .. } => i == j as usize,
        SInstr::Return { i, .. } => i == j as usize,
        SInstr::UnaryNeg { i, .. } => i == j as usize,
        SInstr::BuildList { i, .. } => i == j as usize,
        SInstr::BuildDict { i, .. } => i == j as usize,
    }
}

/// Each instruction has a source range, and carries its own index.
pub open spec fn indexed(instrs: Seq<SInstr>, positions: Seq<(Position, Position)>) -> bool {
    indexed_from(instrs, positions, 0)
}

/// There is one source range per instruction, and each instruction from
/// number `n` on carries its own index.
pub open spec fn indexed_from(instrs: Seq<SInstr>, positions: Seq<(Position, Position)>, n: int) -> bool {
    &&& positions.len() == instrs.len()
    &&& forall|j: int| 0 <= j && n <= j < instrs.len() ==> instr_index_ok(#[trigger] instrs[j], j)
}

proof fn lemma_push_indexed(n: int, st: CState, ins: SInstr, s: Position, e: Position)
    requires
        indexed_from(st.instrs, st.positions, n),
        instr_index_ok(ins, st.instrs.len() as int),
    ensures
        indexed_from(push_instr(st, ins, s, e).instrs, push_instr(st, ins, s, e).positions, n),
{
    let st2 = push_instr(st, ins, s, e);
    assert forall|j: int| 0 <= j && n <= j < st2.instrs.len() implies instr_index_ok(#[trigger] st2.instrs[j], j) by {
        if j < st.instrs.len() {
            assert(st2.instrs[j] == st.instrs[j]);
        }
    }
}

/// Placing values emits no instruction.
proof fn lemma_values_keeps(st: CState, e: SNode)
    ensures
        sc_values(st, e) matches Ok((st1, _)) ==> st1.instrs == st.instrs && st1.positions == st.positions,
    decreases e,
{
    match e.kind {
        SKind::Binary(l, r, _) => {
            lemma_values_keeps(st, *l);
            if let Ok((st1, _)) = sc_values(st, *l) {
                lemma_values_keeps(st1, *r);
            }
        },
        SKind::Store(_, x) => {
            lemma_values_keeps(st, *x);
        },
        SKind::Return(x) => {
            lemma_values_keeps(st, *x);
        },
        SKind::Unary(x, _) => {
            lemma_values_keeps(st, *x);
        },
        SKind::Call(c, args) => {
            lemma_values_keeps(st, *c);
            if let Ok((st1, _)) = sc_values(st, *c) {
                lemma_values_seq_keeps(st1, args, seq![]);
            }
        },
        SKind::List(items) => {
            lemma_values_seq_keeps(st, items, seq![]);
        },
        SKind::Dict(k, v) => {
            lemma_values_seq_keeps(st, k, seq![]);
            if let Ok((st1, _)) = sc_values_seq(st, k, seq![]) {
                lemma_values_seq_keeps(st1, v, seq![]);
            }
        },
        _ => {},
    }
}

proof fn lemma_values_seq_keeps(st: CState, es: Seq<SNode>, acc: Seq<SCtx>)
    ensures
        sc_values_seq(st, es, acc) matches Ok((st1, _)) ==> st1.instrs == st.instrs && st1.positions
            == st.positions,
    decreases es,
{
    if es.len() > 0 {
        lemma_values_keeps(st, es[0]);
        if let Ok((st1, c)) = sc_values(st, es[0]) {
            lemma_values_seq_keeps(st1, es.drop_first(), acc.push(c));
        }
    }
}

/// Emitting operations keeps every instruction at its index.
proof fn lemma_op_indexed(n: int, st: CState, e: SNode, ctx: SCtx)
    requires
        indexed_from(st.instrs, st.positions, n),
    ensures
        sc_op(st, e, ctx) matches Ok(st1) ==> indexed_from(st1.instrs, st1.positions, n),
    decreases e,
{
    let ps = e.start;
    let pe = e.end;
    match e.kind {
        SKind::Binary(l, r, op) => {
            if let Some(lc) = ctx.leftctx {
                lemma_op_indexed(n, st, *l, *lc);
                if let Ok(st1) = sc_op(st, *l, *lc) {
                    if let Some(rc) = ctx.rightctx {
                        lemma_op_indexed(n, st1, *r, *rc);
                        if let Ok(st2) = sc_op(st1, *r, *rc) {
                            let a = opt_reg(ctx.left);
                            let b = opt_reg(ctx.right);
                            let i = st2.instrs.len() as usize;
                            let ins = match op {
                                OpType::Add => SInstr::BinaryAdd { a, b, result: ctx.value, i },
                                OpType::Sub => SInstr::BinarySub { a, b, result: ctx.value, i },
                                OpType::Mul => SInstr::BinaryMul { a, b, result: ctx.value, i },
                                _ => SInstr::BinaryDiv { a, b, result: ctx.value, i },
                            };
                            lemma_push_indexed(n, st2, ins, ps, pe);
                        }
                    }
                }
            }
        },
        SKind::Store(name, x) => {
            if let Some(c) = ctx.leftctx {
                lemma_op_indexed(n, st, *x, *c);
                if let Ok(st1) = sc_op(st, *x, *c) {
                    let (names2, idx) = match find_name(st1.names, name, 0) {
                        Some(j) => (st1.names, st1.names[j].1 as int),
                        None => (st1.names.push((name, st1.names.len() as i32)), st1.names.len() as int),
                    };
                    let st2 = CState { names: names2, ..st1 };
                    let i = st2.instrs.len() as usize;
                    lemma_push_indexed(n, 
                        st2,
                        SInstr::CopyRegister { from: opt_reg(ctx.left), to: CompilerRegister::V(slot(idx)), i },
                        ps,
                        pe,
                    );
                }
            }
        },
        SKind::Call(callee, args) => {
            if let Some(c) = ctx.leftctx {
                lemma_op_indexed(n, st, *callee, *c);
                if let Ok(st1) = sc_op(st, *callee, *c) {
                    let acs = match ctx.args {
                        Some(a) => a,
                        None => seq![],
                    };
                    lemma_op_seq_indexed(n, st1, args, acs);
                    if let Ok(st2) = sc_op_seq(st1, args, acs) {
                        let i = st2.instrs.len() as usize;
                        lemma_push_indexed(n, 
                            st2,
                            SInstr::Call { callableregister: opt_reg(ctx.left), result: ctx.value, arg_registers: acs, i },
                            ps,
                            pe,
                        );
                    }
                }
            }
        },
        SKind::Return(x) => {
            if let Some(c) = ctx.leftctx {
                lemma_op_indexed(n, st, *x, *c);
                if let Ok(st1) = sc_op(st, *x, *c) {
                    let i = st1.instrs.len() as usize;
                    lemma_push_indexed(n, st1, SInstr::Return { register: ctx.value, i }, ps, pe);
                }
            }
        },
        SKind::Unary(x, op) => {
            if let Some(c) = ctx.leftctx {
                lemma_op_indexed(n, st, *x, *c);
                if let Ok(st1) = sc_op(st, *x, *c) {
                    let i = st1.instrs.len() as usize;
                    lemma_push_indexed(n, st1, SInstr::UnaryNeg { a: opt_reg(ctx.left), result: ctx.value, i }, ps, pe);
                }
            }
        },
        SKind::List(items) => {
            let cs = match ctx.args {
                Some(a) => a,
                None => seq![],
            };
            lemma_op_seq_indexed(n, st, items, cs);
            if let Ok(st1) = sc_op_seq(st, items, cs) {
                let i = st1.instrs.len() as usize;
                lemma_push_indexed(n, st1, SInstr::BuildList { result: ctx.value, value_registers: ctx_values(cs), i }, ps, pe);
            }
        },
        SKind::Dict(keys, values) => {
            let (kcs, vcs) = match ctx.mapping {
                Some(m) => m,
                None => (seq![], seq![]),
            };
            lemma_op_seq_indexed(n, st, keys, kcs);
            if let Ok(st1) = sc_op_seq(st, keys, kcs) {
                lemma_op_seq_indexed(n, st1, values, vcs);
                if let Ok(st2) = sc_op_seq(st1, values, vcs) {
                    let i = st2.instrs.len() as usize;
                    lemma_push_indexed(n, 
                        st2,
                        SInstr::BuildDict {
                            result: ctx.value,
                            key_registers: ctx_values(kcs),
                            value_registers: ctx_values(vcs),
                            i,
                        },
                        ps,
                        pe,
                    );
                }
            }
        },
        _ => {},
    }
}

proof fn lemma_op_seq_indexed(n: int, st: CState, es: Seq<SNode>, cs: Seq<SCtx>)
    requires
        indexed_from(st.instrs, st.positions, n),
    ensures
        sc_op_seq(st, es, cs) matches Ok(st1) ==> indexed_from(st1.instrs, st1.positions, n),
    decreases es,
{
    if es.len() > 0 && cs.len() > 0 {
        lemma_op_indexed(n, st, es[0], cs[0]);
        if let Ok(st1) = sc_op(st, es[0], cs[0]) {
            lemma_op_seq_indexed(n, st1, es.drop_first(), cs.drop_first());
        }
    }
}

proof fn lemma_statement_indexed(st: CState, e: SNode)
    requires
        indexed(st.instrs, st.positions),
    ensures
        sc_statement(st, e) matches Ok(st1) ==> indexed(st1.instrs, st1.positions),
    decreases e, 0nat,
{
    match e.kind {
        SKind::Function(name, args, code) => {
            if !(st.names.len() >= i32::MAX || st.consts.len() + 4 > usize::MAX) {
                let nameidx = st.consts.len();
                let argsidx = nameidx + 1;
                let idxsidx = nameidx + 2;
                let codeidx = nameidx + 3;
                if let Ok(bc) = sc_generate(empty_state(param_names(args, st.names.len() as i32)), code) {
                    let consts = st.consts.push(SValue::Str(name)).push(SValue::List(str_values(args))).push(
                        SValue::List(index_values(args.len())),
                    ).push(SValue::Code(Box::new(bc)));
                    let st1 = CState { consts, ..st };
                    if st1.rindex != i32::MAX {
                        let mf = SInstr::MakeFunction {
                            nameidx: nameidx as usize,
                            argsidx: argsidx as usize,
                            codeidx: codeidx as usize,
                            idxsidx: idxsidx as usize,
                            out: CompilerRegister::R(slot(st1.rindex as int)),
                        };
                        lemma_push_indexed(0, st1, mf, e.start, e.end);
                        let st2 = inc_reg(push_instr(st1, mf, e.start, e.end));
                        let names2 = names_insert(st2.names, name, st2.names.len() as i32);
                        let st3 = CState { names: names2, ..st2 };
                        lemma_push_indexed(
                            0,
                            st3,
                            SInstr::CopyRegister {
                                from: CompilerRegister::R(slot(st3.rindex - 1)),
                                to: CompilerRegister::V((names2.len() - 1) as usize),
                                i: st3.instrs.len() as usize,
                            },
                            e.start,
                            e.end,
                        );
                    }
                }
            }
        },
        _ => {
            lemma_values_keeps(st, e);
            if let Ok((st1, ctx)) = sc_values(st, e) {
                lemma_op_indexed(0, st1, e, ctx);
            }
        },
    }
}

proof fn lemma_statements_indexed(st: CState, es: Seq<SNode>)
    requires
        indexed(st.instrs, st.positions),
    ensures
        sc_statements(st, es) matches Ok(st1) ==> indexed(st1.instrs, st1.positions),
    decreases es, 0nat,
{
    if es.len() > 0 {
        lemma_statement_indexed(st, es[0]);
        if let Ok(st1) = sc_statement(st, es[0]) {
            lemma_statements_indexed(st1, es.drop_first());
        }
    }
}

/// In a compiled unit, every instruction has its source range, and every
/// instruction but `MakeFunction` carries its own index, by which the
/// machine finds that range.
pub proof fn law_compiled_instructions_indexed(names: Seq<(Seq<char>, i32)>, es: Seq<SNode>)
    ensures
        sc_generate(empty_state(names), es) matches Ok(b) ==> indexed(b.instructions, b.positions),
{
    lemma_statements_indexed(empty_state(names), es);
}

// ---------------------------------------------------------------------------
// Scratch registers are given back.

/// The scratch registers that the contexts `c` of `e` hold in all, counted
/// along the walk that emitting `e`'s operations takes.
pub open spec fn held(e: SNode, c: SCtx) -> int
    decreases e,
{
    c.registers + match e.kind {
        SKind::Binary(l, r, _) => match c.leftctx {
            None => 0,
            Some(lc) => held(*l, *lc) + match c.rightctx {
                None => 0,
                Some(rc) => held(*r, *rc),
            },
        },
        SKind::Store(_, x) => match c.leftctx {
            None => 0,
            Some(cc) => held(*x, *cc),
        },
        SKind::Return(x) => match c.leftctx {
            None => 0,
            Some(cc) => held(*x, *cc),
        },
        SKind::Unary(x, _) => match c.leftctx {
            None => 0,
            Some(cc) => held(*x, *cc),
        },
        SKind::Call(callee, args) => match c.leftctx {
            None => 0,
            Some(cc) => held(*callee, *cc) + held_seq(args, match c.args {
                Some(a) => a,
                None => seq![],
            }),
        },
        SKind::List(items) => held_seq(items, match c.args {
            Some(a) => a,
            None => seq![],
        }),
        SKind::Dict(k, v) => match c.mapping {
            Some((kcs, vcs)) => held_seq(k, kcs) + held_seq(v, vcs),
            None => 0,
        },
        _ => 0,
    }
}

pub open spec fn held_seq(es: Seq<SNode>, cs: Seq<SCtx>) -> int
    decreases es,
{
    if es.len() == 0 || cs.len() == 0 {
        0
    } else {
        held(es[0], cs[0]) + held_seq(es.drop_first(), cs.drop_first())
    }
}

/// Placing the values of `e` takes exactly the registers its contexts hold.
proof fn lemma_values_take(st: CState, e: SNode)
    ensures
        sc_values(st, e) matches Ok((st1, c)) ==> st1.rindex == st.rindex + held(e, c),
    decreases e,
{
    match e.kind {
        SKind::Binary(l, r, _) => {
            lemma_values_take(st, *l);
            if let Ok((st1, lc)) = sc_values(st, *l) {
                lemma_values_take(st1, *r);
            }
        },
        SKind::Store(_, x) => {
            lemma_values_take(st, *x);
        },
        SKind::Return(x) => {
            lemma_values_take(st, *x);
        },
        SKind::Unary(x, _) => {
            lemma_values_take(st, *x);
        },
        SKind::Call(c, args) => {
            lemma_values_take(st, *c);
            if let Ok((st1, _)) = sc_values(st, *c) {
                lemma_values_seq_take(st1, args, seq![]);
                if let Ok((st2, acs)) = sc_values_seq(st1, args, seq![]) {
                    assert(acs.subrange(0, acs.len() as int) == acs);
                }
            }
        },
        SKind::List(items) => {
            lemma_values_seq_take(st, items, seq![]);
            if let Ok((st1, cs)) = sc_values_seq(st, items, seq![]) {
                assert(cs.subrange(0, cs.len() as int) == cs);
            }
        },
        SKind::Dict(k, v) => {
            lemma_values_seq_take(st, k, seq![]);
            if let Ok((st1, kcs)) = sc_values_seq(st, k, seq![]) {
                assert(kcs.subrange(0, kcs.len() as int) == kcs);
                lemma_values_seq_take(st1, v, seq![]);
                if let Ok((st2, vcs)) = sc_values_seq(st1, v, seq![]) {
                    assert(vcs.subrange(0, vcs.len() as int) == vcs);
                }
            }
        },
        _ => {},
    }
}

proof fn lemma_values_seq_take(st: CState, es: Seq<SNode>, acc: Seq<SCtx>)
    ensures
        sc_values_seq(st, es, acc) matches Ok((st1, cs)) ==> {
            &&& cs.len() == acc.len() + es.len()
            &&& cs.subrange(0, acc.len() as int) == acc
            &&& st1.rindex == st.rindex + held_seq(es, cs.subrange(acc.len() as int, cs.len() as int))
        },
    decreases es,
{
    if es.len() == 0 {
        if let Ok((st1, cs)) = sc_values_seq(st, es, acc) {
            assert(cs.subrange(0, acc.len() as int) =~= acc);
        }
    } else {
        lemma_values_take(st, es[0]);
        if let Ok((st1, c)) = sc_values(st, es[0]) {
            lemma_values_seq_take(st1, es.drop_first(), acc.push(c));
            if let Ok((st2, cs)) = sc_values_seq(st1, es.drop_first(), acc.push(c)) {
                let n = acc.len() as int;
                let tail = cs.subrange(n, cs.len() as int);
                assert(cs.subrange(0, n) =~= acc.push(c).subrange(0, n));
                assert(cs[n] == acc.push(c)[n]);
                assert(tail[0] == c);
                assert(tail.drop_first() =~= cs.subrange(n + 1, cs.len() as int));
            }
        }
    }
}

/// Emitting the operations of `e` gives back the registers its contexts
/// hold.
proof fn lemma_op_gives_back(st: CState, e: SNode, ctx: SCtx)
    ensures
        sc_op(st, e, ctx) matches Ok(st1) ==> st1.rindex == st.rindex - held(e, ctx),
    decreases e,
{
    match e.kind {
        SKind::Binary(l, r, op) => {
            if let Some(lc) = ctx.leftctx {
                lemma_op_gives_back(st, *l, *lc);
                if let Ok(st1) = sc_op(st, *l, *lc) {
                    if let Some(rc) = ctx.rightctx {
                        lemma_op_gives_back(st1, *r, *rc);
                    }
                }
            }
        },
        SKind::Store(name, x) => {
            if let Some(c) = ctx.leftctx {
                lemma_op_gives_back(st, *x, *c);
            }
        },
        SKind::Call(callee, args) => {
            if let Some(c) = ctx.leftctx {
                lemma_op_gives_back(st, *callee, *c);
                if let Ok(st1) = sc_op(st, *callee, *c) {
                    let acs = match ctx.args {
                        Some(a) => a,
                        None => seq![],
                    };
                    lemma_op_seq_gives_back(st1, args, acs);
                }
            }
        },
        SKind::Return(x) => {
            if let Some(c) = ctx.leftctx {
                lemma_op_gives_back(st, *x, *c);
            }
        },
        SKind::Unary(x, op) => {
            if let Some(c) = ctx.leftctx {
                lemma_op_gives_back(st, *x, *c);
            }
        },
        SKind::List(items) => {
            let cs = match ctx.args {
                Some(a) => a,
                None => seq![],
            };
            lemma_op_seq_gives_back(st, items, cs);
        },
        SKind::Dict(keys, values) => {
            let (kcs, vcs) = match ctx.mapping {
                Some(m) => m,
                None => (seq![], seq![]),
            };
            lemma_op_seq_gives_back(st, keys, kcs);
            if let Ok(st1) = sc_op_seq(st, keys, kcs) {
                lemma_op_seq_gives_back(st1, values, vcs);
            }
        },
        _ => {},
    }
}

proof fn lemma_op_seq_gives_back(st: CState, es: Seq<SNode>, cs: Seq<SCtx>)
    ensures
        sc_op_seq(st, es, cs) matches Ok(st1) ==> st1.rindex == st.rindex - held_seq(es, cs),
    decreases es,
{
    if es.len() > 0 && cs.len() > 0 {
        lemma_op_gives_back(st, es[0], cs[0]);
        if let Ok(st1) = sc_op(st, es[0], cs[0]) {
            lemma_op_seq_gives_back(st1, es.drop_first(), cs.drop_first());
        }
    }
}

/// Compiling a statement gives back every scratch register it takes: the
/// register index after it is the one before it.
pub proof fn law_statement_releases_registers(st: CState, e: SNode)
    ensures
        sc_statement(st, e) matches Ok(st1) ==> st1.rindex == st.rindex,
{
    match e.kind {
        SKind::Function(_, _, _) => {},
        _ => {
            lemma_values_take(st, e);
            if let Ok((st1, ctx)) = sc_values(st, e) {
                lemma_op_gives_back(st1, e, ctx);
            }
        },
    }
}


// ---------------------------------------------------------------------------
// An expression compiles in place.

/// `b` holds every instruction and source range of `a`, unchanged, at the
/// same places.
pub open spec fn prefix_kept(a: CState, b: CState) -> bool {
    &&& a.instrs.len() <= b.instrs.len()
    &&& a.positions.len() <= b.positions.len()
    &&& forall|j: int| 0 <= j < a.instrs.len() ==> #[trigger] b.instrs[j] == a.instrs[j]
    &&& forall|j: int| 0 <= j < a.positions.len() ==> #[trigger] b.positions[j] == a.positions[j]
}

proof fn lemma_op_extends(st: CState, e: SNode, ctx: SCtx)
    ensures
        sc_op(st, e, ctx) matches Ok(st1) ==> prefix_kept(st, st1),
    decreases e,
{
    match e.kind {
        SKind::Binary(l, r, _) => {
            if let Some(lc) = ctx.leftctx {
                lemma_op_extends(st, *l, *lc);
                if let Ok(st1) = sc_op(st, *l, *lc) {
                    if let Some(rc) = ctx.rightctx {
                        lemma_op_extends(st1, *r, *rc);
                    }
                }
            }
        },
        SKind::Store(_, x) => {
            if let Some(c) = ctx.leftctx {
                lemma_op_extends(st, *x, *c);
            }
        },
        SKind::Call(callee, args) => {
            if let Some(c) = ctx.leftctx {
                lemma_op_extends(st, *callee, *c);
                if let Ok(st1) = sc_op(st, *callee, *c) {
                    let acs = match ctx.args {
                        Some(a) => a,
                        None => seq![],
                    };
                    lemma_op_seq_extends(st1, args, acs);
                }
            }
        },
        SKind::Return(x) => {
            if let Some(c) = ctx.leftctx {
                lemma_op_extends(st, *x, *c);
            }
        },
        SKind::Unary(x, _) => {
            if let Some(c) = ctx.leftctx {
                lemma_op_extends(st, *x, *c);
            }
        },
        SKind::List(items) => {
            let cs = match ctx.args {
                Some(a) => a,
                None => seq![],
            };
            lemma_op_seq_extends(st, items, cs);
        },
        SKind::Dict(keys, values) => {
            let (kcs, vcs) = match ctx.mapping {
                Some(m) => m,
                None => (seq![], seq![]),
            };
            lemma_op_seq_extends(st, keys, kcs);
            if let Ok(st1) = sc_op_seq(st, keys, kcs) {
                lemma_op_seq_extends(st1, values, vcs);
            }
        },
        _ => {},
    }
}

proof fn lemma_op_seq_extends(st: CState, es: Seq<SNode>, cs: Seq<SCtx>)
    ensures
        sc_op_seq(st, es, cs) matches Ok(st1) ==> prefix_kept(st, st1),
    decreases es,
{
    if es.len() > 0 && cs.len() > 0 {
        lemma_op_extends(st, es[0], cs[0]);
        if let Ok(st1) = sc_op(st, es[0], cs[0]) {
            lemma_op_seq_extends(st1, es.drop_first(), cs.drop_first());
        }
    }
}

/// How many literals (numbers and strings) `e` holds: each takes a
/// register while its value is placed.
pub open spec fn literal_count(e: SNode) -> int
    decreases e,
{
    match e.kind {
        SKind::Decimal(_) | SKind::Str(_) => 1,
        SKind::Binary(l, r, _) => literal_count(*l) + literal_count(*r),
        SKind::Store(_, x) => literal_count(*x),
        SKind::Call(c, args) => literal_count(*c) + literal_count_seq(args),
        SKind::Return(x) => literal_count(*x),
        SKind::Unary(x, _) => literal_count(*x),
        SKind::List(items) => literal_count_seq(items),
        SKind::Dict(k, v) => literal_count_seq(k) + literal_count_seq(v),
        _ => 0,
    }
}

pub open spec fn literal_count_seq(es: Seq<SNode>) -> int
    decreases es,
{
    if es.len() == 0 {
        0
    } else {
        literal_count(es[0]) + literal_count_seq(es.drop_first())
    }
}

/// The source ranges of the instructions that emitting the operations of
/// `e` appends, in order: each is the range of the node that emits it.
pub open spec fn op_ranges(e: SNode) -> Seq<(Position, Position)>
    decreases e,
{
    let here = seq![(e.start, e.end)];
    match e.kind {
        SKind::Binary(l, r, _) => op_ranges(*l) + op_ranges(*r) + here,
        SKind::Store(_, x) => op_ranges(*x) + here,
        SKind::Call(c, args) => op_ranges(*c) + op_ranges_seq(args) + here,
        SKind::Return(x) => op_ranges(*x) + here,
        SKind::Unary(x, op) => op_ranges(*x) + if op == OpType::Add {
            here
        } else {
            seq![]
        },
        SKind::List(items) => op_ranges_seq(items) + here,
        SKind::Dict(k, v) => op_ranges_seq(k) + op_ranges_seq(v) + here,
        _ => seq![],
    }
}

pub open spec fn op_ranges_seq(es: Seq<SNode>) -> Seq<(Position, Position)>
    decreases es,
{
    if es.len() == 0 {
        seq![]
    } else {
        op_ranges(es[0]) + op_ranges_seq(es.drop_first())
    }
}

/// `c` has the shape that placing the values of `e` gives a context.
pub open spec fn ctx_fits(e: SNode, c: SCtx) -> bool
    decreases e,
{
    match e.kind {
        SKind::Binary(l, r, _) => match (c.leftctx, c.rightctx) {
            (Some(lc), Some(rc)) => ctx_fits(*l, *lc) && ctx_fits(*r, *rc),
            _ => false,
        },
        SKind::Store(_, x) => match c.leftctx {
            Some(xc) => ctx_fits(*x, *xc),
            None => false,
        },
        SKind::Return(x) => match c.leftctx {
            Some(xc) => ctx_fits(*x, *xc),
            None => false,
        },
        SKind::Unary(x, _) => match c.leftctx {
            Some(xc) => ctx_fits(*x, *xc),
            None => false,
        },
        SKind::Call(callee, args) => match (c.leftctx, c.args) {
            (Some(cc), Some(acs)) => ctx_fits(*callee, *cc) && ctxs_fit(args, acs),
            _ => false,
        },
        SKind::List(items) => match c.args {
            Some(cs) => ctxs_fit(items, cs),
            None => false,
        },
        SKind::Dict(k, v) => match c.mapping {
            Some((kcs, vcs)) => ctxs_fit(k, kcs) && ctxs_fit(v, vcs),
            None => false,
        },
        _ => true,
    }
}

pub open spec fn ctxs_fit(es: Seq<SNode>, cs: Seq<SCtx>) -> bool
    decreases es,
{
    &&& es.len() == cs.len()
    &&& (es.len() == 0 || (ctx_fits(es[0], cs[0]) && ctxs_fit(es.drop_first(), cs.drop_first())))
}

proof fn lemma_values_fit(st: CState, e: SNode)
    ensures
        sc_values(st, e) matches Ok((st1, c)) ==> ctx_fits(e, c) && st1.rindex == st.rindex + literal_count(e),
    decreases e,
{
    match e.kind {
        SKind::Binary(l, r, _) => {
            lemma_values_fit(st, *l);
            if let Ok((st1, _)) = sc_values(st, *l) {
                lemma_values_fit(st1, *r);
            }
        },
        SKind::Store(_, x) => lemma_values_fit(st, *x),
        SKind::Return(x) => lemma_values_fit(st, *x),
        SKind::Unary(x, _) => lemma_values_fit(st, *x),
        SKind::Call(c, args) => {
            lemma_values_fit(st, *c);
            if let Ok((st1, _)) = sc_values(st, *c) {
                lemma_values_seq_fit(st1, args, seq![]);
                if let Ok((_, acs)) = sc_values_seq(st1, args, seq![]) {
                    assert(acs.subrange(0, acs.len() as int) == acs);
                }
            }
        },
        SKind::List(items) => {
            lemma_values_seq_fit(st, items, seq![]);
            if let Ok((_, cs)) = sc_values_seq(st, items, seq![]) {
                assert(cs.subrange(0, cs.len() as int) == cs);
            }
        },
        SKind::Dict(k, v) => {
            lemma_values_seq_fit(st, k, seq![]);
            if let Ok((st1, kcs)) = sc_values_seq(st, k, seq![]) {
                assert(kcs.subrange(0, kcs.len() as int) == kcs);
                lemma_values_seq_fit(st1, v, seq![]);
                if let Ok((_, vcs)) = sc_values_seq(st1, v, seq![]) {
                    assert(vcs.subrange(0, vcs.len() as int) == vcs);
                }
            }
        },
        _ => {},
    }
}

proof fn lemma_values_seq_fit(st: CState, es: Seq<SNode>, acc: Seq<SCtx>)
    ensures
        sc_values_seq(st, es, acc) matches Ok((st1, cs)) ==> {
            &&& cs.len() == acc.len() + es.len()
            &&& cs.subrange(0, acc.len() as int) == acc
            &&& ctxs_fit(es, cs.subrange(acc.len() as int, cs.len() as int))
            &&& st1.rindex == st.rindex + literal_count_seq(es)
        },
    decreases es,
{
    if es.len() == 0 {
        if let Ok((st1, cs)) = sc_values_seq(st, es, acc) {
            assert(cs.subrange(0, acc.len() as int) =~= acc);
        }
    } else {
        lemma_values_fit(st, es[0]);
        if let Ok((st1, c)) = sc_values(st, es[0]) {
            lemma_values_seq_fit(st1, es.drop_first(), acc.push(c));
            if let Ok((st2, cs)) = sc_values_seq(st1, es.drop_first(), acc.push(c)) {
                let n = acc.len() as int;
                let tail = cs.subrange(n, cs.len() as int);
                assert(cs.subrange(0, n) =~= acc.push(c).subrange(0, n));
                assert(cs[n] == acc.push(c)[n]);
                assert(tail[0] == c);
                assert(tail.drop_first() =~= cs.subrange(n + 1, cs.len() as int));
            }
        }
    }
}

proof fn lemma_op_ranges(st: CState, e: SNode, c: SCtx)
    requires
        ctx_fits(e, c),
    ensures
        sc_op(st, e, c) matches Ok(st1) ==> st1.positions == st.positions + op_ranges(e),
    decreases e,
{
    let here = seq![(e.start, e.end)];
    match e.kind {
        SKind::Binary(l, r, _) => {
            let lc = *c.leftctx->Some_0;
            let rc = *c.rightctx->Some_0;
            lemma_op_ranges(st, *l, lc);
            if let Ok(st1) = sc_op(st, *l, lc) {
                lemma_op_ranges(st1, *r, rc);
                if let Ok(st2) = sc_op(st1, *r, rc) {
                    assert(st.positions + op_ranges(*l) + op_ranges(*r) + here =~= st.positions + (op_ranges(*l)
                        + op_ranges(*r) + here));
                }
            }
        },
        SKind::Store(_, x) => {
            lemma_op_ranges(st, *x, *c.leftctx->Some_0);
            assert(st.positions + op_ranges(*x) + here =~= st.positions + (op_ranges(*x) + here));
        },
        SKind::Return(x) => {
            lemma_op_ranges(st, *x, *c.leftctx->Some_0);
            assert(st.positions + op_ranges(*x) + here =~= st.positions + (op_ranges(*x) + here));
        },
        SKind::Unary(x, _) => {
            lemma_op_ranges(st, *x, *c.leftctx->Some_0);
            assert(st.positions + op_ranges(*x) + here =~= st.positions + (op_ranges(*x) + here));
            assert(st.positions + op_ranges(*x) + seq![] =~= st.positions + op_ranges(*x));
        },
        SKind::Call(callee, args) => {
            let cc = *c.leftctx->Some_0;
            let acs = c.args->Some_0;
            lemma_op_ranges(st, *callee, cc);
            if let Ok(st1) = sc_op(st, *callee, cc) {
                lemma_op_seq_ranges(st1, args, acs);
                assert(st.positions + op_ranges(*callee) + op_ranges_seq(args) + here =~= st.positions + (
                op_ranges(*callee) + op_ranges_seq(args) + here));
            }
        },
        SKind::List(items) => {
            lemma_op_seq_ranges(st, items, c.args->Some_0);
            assert(st.positions + op_ranges_seq(items) + here =~= st.positions + (op_ranges_seq(items) + here));
        },
        SKind::Dict(k, v) => {
            let (kcs, vcs) = c.mapping->Some_0;
            lemma_op_seq_ranges(st, k, kcs);
            if let Ok(st1) = sc_op_seq(st, k, kcs) {
                lemma_op_seq_ranges(st1, v, vcs);
                assert(st.positions + op_ranges_seq(k) + op_ranges_seq(v) + here =~= st.positions + (
                op_ranges_seq(k) + op_ranges_seq(v) + here));
            }
        },
        _ => {
            assert(st.positions + seq![] =~= st.positions);
        },
    }
}

proof fn lemma_op_seq_ranges(st: CState, es: Seq<SNode>, cs: Seq<SCtx>)
    requires
        ctxs_fit(es, cs),
    ensures
        sc_op_seq(st, es, cs) matches Ok(st1) ==> st1.positions == st.positions + op_ranges_seq(es),
    decreases es,
{
    if es.len() > 0 {
        lemma_op_ranges(st, es[0], cs[0]);
        if let Ok(st1) = sc_op(st, es[0], cs[0]) {
            lemma_op_seq_ranges(st1, es.drop_first(), cs.drop_first());
            assert(st.positions + op_ranges(es[0]) + op_ranges_seq(es.drop_first()) =~= st.positions + (op_ranges(
                es[0],
            ) + op_ranges_seq(es.drop_first())));
        }
    } else {
        assert(st.positions + seq![] =~= st.positions);
    }
}

/// Compiling an expression in its two steps (`compile_expr_values`, then
/// `compile_expr_operation` with the context it gave): placing the values
/// takes one register for each literal; emitting the operations keeps the
/// instructions already there, appends instructions that each carry their
/// own index, with the source range of the node that emits it, and gives
/// back every register the first step took.
pub proof fn law_expression_compiles_in_place(st: CState, e: SNode)
    requires
        st.positions.len() == st.instrs.len(),
    ensures
        sc_values(st, e) matches Ok((st1, ctx)) ==> {
            &&& st1.rindex == st.rindex + literal_count(e)
            &&& (sc_op(st1, e, ctx) matches Ok(st2) ==> {
                &&& prefix_kept(st, st2)
                &&& indexed_from(st2.instrs, st2.positions, st.instrs.len() as int)
                &&& st2.positions == st.positions + op_ranges(e)
                &&& st2.rindex == st.rindex
            })
        },
{
    lemma_values_keeps(st, e);
    lemma_values_take(st, e);
    lemma_values_fit(st, e);
    if let Ok((st1, ctx)) = sc_values(st, e) {
        lemma_op_extends(st1, e, ctx);
        lemma_op_indexed(st.instrs.len() as int, st1, e, ctx);
        lemma_op_gives_back(st1, e, ctx);
        lemma_op_ranges(st1, e, ctx);
    }
}

} // verus!
