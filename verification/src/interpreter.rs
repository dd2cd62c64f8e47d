//! The register machine that runs compiled units.
//!
//! A unit runs in a frame of its own: its registers (all `None` at first)
//! and its variable slots (all unset at first, but for a function's
//! arguments). `spec_exec` states what running a unit gives; calls nest at
//! most `fuel` deep.
use vstd::prelude::*;
use crate::compiler::{
    Bytecode, CompilerInstruction, CompilerRegister, SBytecode, SInstr, bytecode_view, ctx_values,
    ctxs_view, find_slot, find_slot_in, lemma_ctxs_view_len, slot, slot_of,
};
use crate::objects::{
    Dict, ExcKind, FnData, MethodValue, SValue, Value, entries_view, index_contents, lemma_values_view_len,
    value_view, values_view,
};
use crate::compiler::duplicate_bytecode;
use crate::ops::{dict_put, dict_wf};
use crate::ops::{
    ArithOp, concat3, exc_from_str, exc_value, int_arith, int_neg, key_hash, not_defined,
    not_defined_msg, spec_hash, spec_int_arith, spec_int_neg, spec_typename, uint_to_string, digits_of,
    zero_pos,
};
use crate::parser::Position;

verus! {

/// Why a unit could not run on: the bytecode names an operand, a position
/// or a variable name it does not hold, stores into a constant, holds
/// constants of the wrong kind for a function, or calls nest deeper than
/// allowed.
#[derive(Clone, Copy, PartialEq, Eq, Structural, Debug)]
pub enum Fault {
    BadOperand,
    NoPosition,
    NoName,
    StoreToConst,
    BadConstant,
    DepthExceeded,
}

/// Why running stopped early.
#[derive(Debug)]
pub enum RunError {
    /// An exception was raised at the source range `start`..`end`.
    Raised { exc: Value, start: Position, end: Position },
    Fault(Fault),
}

pub enum SRunError {
    Raised(SValue, Position, Position),
    Fault(Fault),
}

pub open spec fn run_error_view(e: RunError) -> SRunError {
    match e {
        RunError::Raised { exc, start, end } => SRunError::Raised(exc@, start, end),
        RunError::Fault(f) => SRunError::Fault(f),
    }
}

/// A frame: the registers and the variable slots of a running unit.
#[derive(Debug)]
pub struct Frame {
    pub registers: Vec<Value>,
    pub variables: Vec<Option<Value>>,
}

pub struct SFrame {
    pub regs: Seq<SValue>,
    pub vars: Seq<Option<SValue>>,
}

pub open spec fn opt_view(o: Option<Value>) -> Option<SValue> {
    match o {
        Some(v) => Some(value_view(v)),
        None => None,
    }
}

pub open spec fn frame_view(f: Frame) -> SFrame {
    SFrame {
        regs: f.registers@.map_values(|v: Value| value_view(v)),
        vars: f.variables@.map_values(|o: Option<Value>| opt_view(o)),
    }
}

/// The exception `exc` with its source range set to `start`..`end`.
pub open spec fn placed(exc: SValue, start: Position, end: Position) -> SValue {
    match exc {
        SValue::Exc(k, m, _, _) => SValue::Exc(k, m, start, end),
        _ => exc,
    }
}

/// Raising `exc` at the source range of instruction `i`.
pub open spec fn raise_at(bc: SBytecode, i: usize, exc: SValue) -> SRunError {
    if i < bc.positions.len() {
        SRunError::Raised(exc, bc.positions[i as int].0, bc.positions[i as int].1)
    } else {
        SRunError::Fault(Fault::NoPosition)
    }
}

/// Raising an exception made at the source range of instruction `i`.
pub open spec fn raise_placed(bc: SBytecode, i: usize, exc: SValue) -> SRunError {
    if i < bc.positions.len() {
        SRunError::Raised(
            placed(exc, bc.positions[i as int].0, bc.positions[i as int].1),
            bc.positions[i as int].0,
            bc.positions[i as int].1,
        )
    } else {
        SRunError::Fault(Fault::NoPosition)
    }
}

/// The value of operand `r`; reading an unset variable raises a `NameExc`
/// that names the variable whose slot is the instruction's number `i`.
pub open spec fn spec_load(bc: SBytecode, f: SFrame, i: usize, r: CompilerRegister) -> Result<SValue, SRunError> {
    match r {
        CompilerRegister::R(v) => if v < f.regs.len() {
            Ok(f.regs[v as int])
        } else {
            Err(SRunError::Fault(Fault::BadOperand))
        },
        CompilerRegister::V(v) => if v < f.vars.len() {
            match f.vars[v as int] {
                Some(x) => Ok(x),
                None => if i >= bc.positions.len() {
                    Err(SRunError::Fault(Fault::NoPosition))
                } else {
                    match find_slot(bc.names, i as i32, 0) {
                        None => Err(SRunError::Fault(Fault::NoName)),
                        Some(j) => Err(
                            raise_placed(
                                bc,
                                i,
                                exc_value(ExcKind::NameExc, "Name '"@ + bc.names[j].1 + "' not defined"@),
                            ),
                        ),
                    }
                }
            }
        } else {
            Err(SRunError::Fault(Fault::BadOperand))
        },
        CompilerRegister::C(v) => if v < bc.consts.len() {
            Ok(bc.consts[v as int])
        } else {
            Err(SRunError::Fault(Fault::BadOperand))
        },
    }
}

/// The frame after storing `v` into operand `r`.
pub open spec fn spec_store(f: SFrame, r: CompilerRegister, v: SValue) -> Result<SFrame, SRunError> {
    match r {
        CompilerRegister::R(x) => if x < f.regs.len() {
            Ok(SFrame { regs: f.regs.update(x as int, v), vars: f.vars })
        } else {
            Err(SRunError::Fault(Fault::BadOperand))
        },
        CompilerRegister::V(x) => if x < f.vars.len() {
            Ok(SFrame { regs: f.regs, vars: f.vars.update(x as int, Some(v)) })
        } else {
            Err(SRunError::Fault(Fault::BadOperand))
        },
        CompilerRegister::C(_) => Err(SRunError::Fault(Fault::StoreToConst)),
    }
}

/// The values of the operands `rs`, in order; the first failing read stops.
pub open spec fn spec_load_all(bc: SBytecode, f: SFrame, i: usize, rs: Seq<CompilerRegister>) -> Result<
    Seq<SValue>,
    SRunError,
>
    decreases rs.len(),
{
    if rs.len() == 0 {
        Ok(seq![])
    } else {
        match spec_load_all(bc, f, i, rs.drop_last()) {
            Err(e) => Err(e),
            Ok(vs) => match spec_load(bc, f, i, rs.last()) {
                Err(e) => Err(e),
                Ok(v) => Ok(vs.push(v)),
            },
        }
    }
}

/// The texts of a list of strings; `None` if an item is not a string.
pub open spec fn all_strs(items: Seq<SValue>) -> Option<Seq<Seq<char>>>
    decreases items.len(),
{
    if items.len() == 0 {
        Some(seq![])
    } else {
        match (all_strs(items.drop_last()), items.last()) {
            (Some(ss), SValue::Str(t)) => Some(ss.push(t)),
            _ => None,
        }
    }
}

/// The numbers of a list of integers; `None` if an item is not an integer.
pub open spec fn all_ints(items: Seq<SValue>) -> Option<Seq<isize>>
    decreases items.len(),
{
    if items.len() == 0 {
        Some(seq![])
    } else {
        match (all_ints(items.drop_last()), items.last()) {
            (Some(ns), SValue::Int(n)) => Some(ns.push(n)),
            _ => None,
        }
    }
}

/// The function that `MakeFunction` builds from its constants.
pub open spec fn spec_make_fn(bc: SBytecode, nameidx: usize, argsidx: usize, codeidx: usize, idxsidx: usize) -> Result<
    SValue,
    SRunError,
> {
    if nameidx >= bc.consts.len() || argsidx >= bc.consts.len() || codeidx >= bc.consts.len() || idxsidx
        >= bc.consts.len() {
        Err(SRunError::Fault(Fault::BadOperand))
    } else {
        match (bc.consts[nameidx as int], bc.consts[argsidx as int], bc.consts[codeidx as int], bc.consts[idxsidx as int]) {
            (SValue::Str(name), SValue::List(args), SValue::Code(code), SValue::List(idxs)) => match (
                all_strs(args),
                all_ints(idxs),
            ) {
                (Some(ss), Some(ns)) => Ok(SValue::Fn(code, ss, ns, name)),
                _ => Err(SRunError::Fault(Fault::BadConstant)),
            },
            _ => Err(SRunError::Fault(Fault::BadConstant)),
        }
    }
}

/// The variable slots of a call: `n` unset slots, then argument `k` stored
/// in slot `idx[k]` for each `k` in order (a later one wins; an index that
/// names no slot is passed over).
pub open spec fn bind_args(n: nat, args: Seq<SValue>, idx: Seq<isize>) -> Seq<Option<SValue>>
    decreases args.len(),
{
    if args.len() == 0 || idx.len() == 0 {
        Seq::new(n, |j: int| None::<SValue>)
    } else {
        let k = (if args.len() < idx.len() { args.len() } else { idx.len() }) - 1;
        let prev = bind_args(n, args.subrange(0, k as int), idx.subrange(0, k as int));
        if 0 <= idx[k as int] < n {
            prev.update(idx[k as int] as int, Some(args[k as int]))
        } else {
            prev
        }
    }
}

/// A fresh frame for a unit: its registers `None`, its slots `vars`.
pub open spec fn fresh_frame(bc: SBytecode, vars: Seq<Option<SValue>>) -> SFrame {
    SFrame { regs: Seq::new(slot(bc.n_registers as int) as nat, |j: int| SValue::NoneObject), vars }
}

pub open spec fn unset_vars(bc: SBytecode) -> Seq<Option<SValue>> {
    Seq::new(slot(bc.n_variables as int) as nat, |j: int| None::<SValue>)
}

/// What one instruction leads to: the next frame, or a returned value.
pub enum Step {
    Next(SFrame),
    Return(SValue),
}

pub open spec fn arity_msg(given: nat, expected: nat) -> Seq<char> {
    "Expected "@ + digits_of(given) + " arguments, got "@ + digits_of(expected)
}

/// Calling the function `code` with parameter slots `idx` on `args`.
pub open spec fn spec_invoke(code: SBytecode, args: Seq<SValue>, idx: Seq<isize>, fuel: nat) -> Result<
    SValue,
    SRunError,
>
    decreases fuel, 0nat, 2nat,
{
    if fuel == 0 {
        Err(SRunError::Fault(Fault::DepthExceeded))
    } else {
        spec_exec(
            code,
            fresh_frame(code, bind_args(slot(code.n_variables as int) as nat, args, idx)),
            0,
            (fuel - 1) as nat,
        )
    }
}

/// Calling a function value with body `code`, parameter names `params` and
/// parameter slots `idx` on `args`: a `ValueExc` (returned, not raised) when
/// the number of arguments is not the number of parameters, else what the
/// body gives.
pub open spec fn spec_fn_call(code: SBytecode, params: Seq<Seq<char>>, idx: Seq<isize>, args: Seq<SValue>, fuel: nat) -> Result<
    MethodValue<SValue, SValue>,
    SRunError,
>
    decreases fuel, 0nat, 3nat,
{
    if args.len() != params.len() {
        Ok(MethodValue::Error(exc_value(ExcKind::ValueExc, arity_msg(args.len(), params.len()))))
    } else {
        match spec_invoke(code, args, idx, fuel) {
            Ok(v) => Ok(MethodValue::Val(v)),
            Err(e) => Err(e),
        }
    }
}

/// Running the unit `bc` from instruction `pc` in frame `f`: the value of
/// the first `Return`, `None` when the instructions run out, or why it
/// stopped.
pub open spec fn spec_exec(bc: SBytecode, f: SFrame, pc: nat, fuel: nat) -> Result<SValue, SRunError>
    decreases fuel, bc.instructions.len() - pc, 1nat,
{
    if pc >= bc.instructions.len() {
        Ok(SValue::NoneObject)
    } else {
        match spec_step(bc, f, pc, fuel) {
            Err(e) => Err(e),
            Ok(Step::Return(v)) => Ok(v),
            Ok(Step::Next(f2)) => spec_exec(bc, f2, pc + 1, fuel),
        }
    }
}

pub open spec fn arith_of(ins: SInstr) -> ArithOp {
    match ins {
        SInstr::BinaryAdd { .. } => ArithOp::Add,
        SInstr::BinarySub { .. } => ArithOp::Sub,
        SInstr::BinaryMul { .. } => ArithOp::Mul,
        _ => ArithOp::Div,
    }
}

pub open spec fn arith_name_of(op: ArithOp) -> Seq<char> {
    match op {
        ArithOp::Add => "add"@,
        ArithOp::Sub => "sub"@,
        ArithOp::Mul => "mul"@,
        ArithOp::Div => "div"@,
    }
}

/// A binary arithmetic instruction: `a op b` by the `int` method of `a`'s
/// type, stored into `result`.
pub open spec fn spec_arith(bc: SBytecode, f: SFrame, op: ArithOp, a: CompilerRegister, b: CompilerRegister, result: CompilerRegister, i: usize) -> Result<
    Step,
    SRunError,
> {
    match spec_load(bc, f, i, a) {
        Err(e) => Err(e),
        Ok(va) => match va {
            SValue::Int(x) => match spec_load(bc, f, i, b) {
                Err(e) => Err(e),
                Ok(vb) => match spec_int_arith(op, x, vb) {
                    Err(exc) => Err(raise_at(bc, i, exc)),
                    Ok(v) => match spec_store(f, result, v) {
                        Err(e) => Err(e),
                        Ok(f2) => Ok(Step::Next(f2)),
                    },
                },
            },
            _ => Err(
                raise_placed(
                    bc,
                    i,
                    exc_value(ExcKind::MethodNotDefinedExc, not_defined_msg(arith_name_of(op), spec_typename(va))),
                ),
            ),
        },
    }
}

/// Storing the outcome of an instruction that computed `r`.
pub open spec fn then_store(f: SFrame, out: CompilerRegister, r: Result<SValue, SRunError>) -> Result<Step, SRunError> {
    match r {
        Err(e) => Err(e),
        Ok(v) => match spec_store(f, out, v) {
            Err(e) => Err(e),
            Ok(f2) => Ok(Step::Next(f2)),
        },
    }
}

/// A dictionary built from the operand pairs `ks[j]: vs[j]`, from `j` on,
/// onto the entries `es`; a key with no hash raises at no source range.
pub open spec fn spec_build_dict(
    bc: SBytecode,
    f: SFrame,
    i: usize,
    ks: Seq<CompilerRegister>,
    vs: Seq<CompilerRegister>,
    j: nat,
    es: Seq<(SValue, SValue)>,
) -> Result<Seq<(SValue, SValue)>, SRunError>
    decreases ks.len() - j,
{
    if j >= ks.len() || j >= vs.len() {
        Ok(es)
    } else {
        match spec_load(bc, f, i, ks[j as int]) {
            Err(e) => Err(e),
            Ok(k) => match spec_load(bc, f, i, vs[j as int]) {
                Err(e) => Err(e),
                Ok(v) => match spec_hash(k) {
                    Err(exc) => Err(SRunError::Raised(exc, zero_pos(), zero_pos())),
                    Ok(h) => spec_build_dict(bc, f, i, ks, vs, j + 1, put_entry(es, h as i128, k, v)),
                },
            },
        }
    }
}

/// `es` with `v` stored under `k` of hash `h`: the entry of that hash
/// replaced, or a new one appended.
pub open spec fn put_entry(es: Seq<(SValue, SValue)>, h: i128, k: SValue, v: SValue) -> Seq<(SValue, SValue)> {
    match find_hash(es, h, 0) {
        Some(j) => es.update(j, (k, v)),
        None => es.push((k, v)),
    }
}

/// The first entry from `j` on whose key has hash `h`.
pub open spec fn find_hash(es: Seq<(SValue, SValue)>, h: i128, j: int) -> Option<int>
    decreases es.len() - j,
{
    if j < 0 || j >= es.len() {
        None
    } else if key_hash(es[j].0) == h {
        Some(j)
    } else {
        find_hash(es, h, j + 1)
    }
}

/// One instruction.
pub open spec fn spec_step(bc: SBytecode, f: SFrame, pc: nat, fuel: nat) -> Result<Step, SRunError>
    decreases fuel, bc.instructions.len() - pc, 0nat,
{
    if pc >= bc.instructions.len() {
        Ok(Step::Next(f))
    } else {
        let ins = bc.instructions[pc as int];
        match ins {
            SInstr::BinaryAdd { a, b, result, i } => spec_arith(bc, f, ArithOp::Add, a, b, result, i),
            SInstr::BinarySub { a, b, result, i } => spec_arith(bc, f, ArithOp::Sub, a, b, result, i),
            SInstr::BinaryMul { a, b, result, i } => spec_arith(bc, f, ArithOp::Mul, a, b, result, i),
            SInstr::BinaryDiv { a, b, result, i } => spec_arith(bc, f, ArithOp::Div, a, b, result, i),
            SInstr::UnaryNeg { a, result, i } => match spec_load(bc, f, i, a) {
                Err(e) => Err(e),
                Ok(va) => match va {
                    SValue::Int(x) => match spec_int_neg(x) {
                        Err(exc) => Err(raise_at(bc, i, exc)),
                        Ok(v) => then_store(f, result, Ok(v)),
                    },
                    _ => Err(
                        raise_placed(
                            bc,
                            i,
                            exc_value(ExcKind::MethodNotDefinedExc, not_defined_msg("neg"@, spec_typename(va))),
                        ),
                    ),
                },
            },
            SInstr::CopyRegister { from, to, i } => then_store(f, to, spec_load(bc, f, i, from)),
            SInstr::MakeFunction { nameidx, argsidx, codeidx, idxsidx, out } => then_store(
                f,
                out,
                spec_make_fn(bc, nameidx, argsidx, codeidx, idxsidx),
            ),
            SInstr::Call { callableregister, result, arg_registers, i } => match spec_load(
                bc,
                f,
                i,
                callableregister,
            ) {
                Err(e) => Err(e),
                Ok(callable) => match spec_load_all(bc, f, i, ctx_values(arg_registers)) {
                    Err(e) => Err(e),
                    Ok(args) => match callable {
                        SValue::Fn(code, params, idx, _) => match spec_fn_call(*code, params, idx, args, fuel) {
                            Err(e) => Err(e),
                            Ok(MethodValue::Error(exc)) => Err(raise_at(bc, i, exc)),
                            Ok(MethodValue::Val(v)) => then_store(f, result, Ok(v)),
                        },
                        _ => Err(
                            raise_placed(
                                bc,
                                i,
                                exc_value(
                                    ExcKind::MethodNotDefinedExc,
                                    not_defined_msg("call"@, spec_typename(callable)),
                                ),
                            ),
                        ),
                    },
                },
            },
            SInstr::Return { register, i } => match spec_load(bc, f, i, register) {
                Err(e) => Err(e),
                Ok(v) => Ok(Step::Return(v)),
            },
            SInstr::BuildList { result, value_registers, i } => match spec_load_all(bc, f, i, value_registers) {
                Err(e) => Err(e),
                Ok(vs) => then_store(f, result, Ok(SValue::List(vs))),
            },
            SInstr::BuildDict { result, key_registers, value_registers, i } => match spec_build_dict(
                bc,
                f,
                i,
                key_registers,
                value_registers,
                0,
                seq![],
            ) {
                Err(e) => Err(e),
                Ok(es) => then_store(f, result, Ok(SValue::Dict(es))),
            },
        }
    }
}

/// Running a unit as a program: `None` for a unit with no instructions,
/// else the unit in a fresh frame with every variable unset.
pub open spec fn spec_run(bc: SBytecode, fuel: nat) -> Result<SValue, SRunError> {
    if bc.instructions.len() == 0 {
        Ok(SValue::NoneObject)
    } else {
        spec_exec(bc, fresh_frame(bc, unset_vars(bc)), 0, fuel)
    }
}

// ---------------------------------------------------------------------------
// Running.

pub open spec fn val_res(s: Result<SValue, SRunError>, r: Result<Value, RunError>) -> bool {
    match s {
        Ok(v) => r is Ok && r->Ok_0@ == v,
        Err(e) => r is Err && run_error_view(r->Err_0) == e,
    }
}

fn fault(f: Fault) -> (r: RunError)
    ensures
        run_error_view(r) == SRunError::Fault(f),
{
    RunError::Fault(f)
}

/// `exc` with its source range set.
fn place(exc: Value, start: Position, end: Position) -> (r: Value)
    ensures
        r@ == placed(exc@, start, end),
{
    match exc {
        Value::Exc(d) => {
            let mut d = d;
            d.start = start;
            d.end = end;
            Value::Exc(d)
        },
        other => other,
    }
}

fn raise_at_exec(bc: &Bytecode, i: usize, exc: Value) -> (r: RunError)
    ensures
        run_error_view(r) == raise_at(bytecode_view(*bc), i, exc@),
{
    if i < bc.positions.len() {
        let (s, e) = bc.positions[i];
        RunError::Raised { exc, start: s, end: e }
    } else {
        RunError::Fault(Fault::NoPosition)
    }
}

fn raise_placed_exec(bc: &Bytecode, i: usize, exc: Value) -> (r: RunError)
    ensures
        run_error_view(r) == raise_placed(bytecode_view(*bc), i, exc@),
{
    if i < bc.positions.len() {
        let (s, e) = bc.positions[i];
        RunError::Raised { exc: place(exc, s, e), start: s, end: e }
    } else {
        RunError::Fault(Fault::NoPosition)
    }
}

/// The value of operand `r` for instruction `i`.
fn load(bc: &Bytecode, f: &Frame, i: usize, r: CompilerRegister) -> (res: Result<Value, RunError>)
    ensures
        val_res(spec_load(bytecode_view(*bc), frame_view(*f), i, r), res),
{
    proof {
        lemma_values_view_len(bc.consts@);
    }
    match r {
        CompilerRegister::R(v) => if v < f.registers.len() {
            Ok(f.registers[v].duplicate())
        } else {
            Err(fault(Fault::BadOperand))
        },
        CompilerRegister::V(v) => if v < f.variables.len() {
            match &f.variables[v] {
                Some(x) => Ok(x.duplicate()),
                None => {
                    if i >= bc.positions.len() {
                        return Err(fault(Fault::NoPosition));
                    }
                    match find_slot_in(&bc.names, i as i32) {
                        None => Err(fault(Fault::NoName)),
                        Some(j) => {
                            let msg = concat3("Name '", bc.names[j].1.as_str(), "' not defined");
                            let exc = exc_from_str(ExcKind::NameExc, msg);
                            Err(raise_placed_exec(bc, i, exc))
                        },
                    }
                },
            }
        } else {
            Err(fault(Fault::BadOperand))
        },
        CompilerRegister::C(v) => if v < bc.consts.len() {
            Ok(bc.consts[v].duplicate())
        } else {
            Err(fault(Fault::BadOperand))
        },
    }
}

/// Stores `v` into operand `r`.
fn store(f: &mut Frame, r: CompilerRegister, v: Value) -> (res: Result<(), RunError>)
    ensures
        match spec_store(frame_view(*old(f)), r, v@) {
            Ok(f2) => res is Ok && frame_view(*final(f)) == f2,
            Err(e) => res is Err && run_error_view(res->Err_0) == e,
        },
{
    match r {
        CompilerRegister::R(x) => if x < f.registers.len() {
            let ghost vv = v@;
            f.registers.set(x, v);
            proof {
                assert(frame_view(*f).regs =~= frame_view(*old(f)).regs.update(x as int, vv));
                assert(frame_view(*f).vars =~= frame_view(*old(f)).vars);
            }
            Ok(())
        } else {
            Err(fault(Fault::BadOperand))
        },
        CompilerRegister::V(x) => if x < f.variables.len() {
            let ghost vv = v@;
            f.variables.set(x, Some(v));
            proof {
                assert(frame_view(*f).vars =~= frame_view(*old(f)).vars.update(x as int, Some(vv)));
                assert(frame_view(*f).regs =~= frame_view(*old(f)).regs);
            }
            Ok(())
        } else {
            Err(fault(Fault::BadOperand))
        },
        CompilerRegister::C(_) => Err(fault(Fault::StoreToConst)),
    }
}

/// The values of operands `rs`, in order.
fn load_all(bc: &Bytecode, f: &Frame, i: usize, rs: &Vec<CompilerRegister>) -> (res: Result<Vec<Value>, RunError>)
    ensures
        match spec_load_all(bytecode_view(*bc), frame_view(*f), i, rs@) {
            Ok(vs) => res is Ok && res->Ok_0@.map_values(|v: Value| value_view(v)) == vs,
            Err(e) => res is Err && run_error_view(res->Err_0) == e,
        },
{
    let ghost b = bytecode_view(*bc);
    let ghost fv = frame_view(*f);
    let mut out: Vec<Value> = Vec::new();
    let mut k: usize = 0;
    proof {
        assert(rs@.subrange(0, 0).len() == 0);
        assert(out@.map_values(|v: Value| value_view(v)) =~= seq![]);
    }
    while k < rs.len()
        invariant
            b == bytecode_view(*bc),
            fv == frame_view(*f),
            k <= rs.len(),
            spec_load_all(b, fv, i, rs@.subrange(0, k as int)) == Ok::<Seq<SValue>, SRunError>(
                out@.map_values(|v: Value| value_view(v)),
            ),
        decreases rs.len() - k,
    {
        proof {
            assert(rs@.subrange(0, k + 1).drop_last() =~= rs@.subrange(0, k as int));
            assert(rs@.subrange(0, k + 1).last() == rs@[k as int]);
        }
        match load(bc, f, i, rs[k]) {
            Err(e) => {
                proof {
                    lemma_load_all_prefix_err(b, fv, i, rs@, (k + 1) as nat);
                }
                return Err(e);
            },
            Ok(v) => {
                out.push(v);
                proof {
                    assert(out@.map_values(|v: Value| value_view(v)) =~= spec_load_all(
                        b,
                        fv,
                        i,
                        rs@.subrange(0, k as int),
                    )->Ok_0.push(v@));
                }
            },
        }
        k = k + 1;
    }
    proof {
        assert(rs@.subrange(0, k as int) =~= rs@);
    }
    Ok(out)
}

/// A failing read among the first `k` operands fails the whole list.
proof fn lemma_load_all_prefix_err(b: SBytecode, f: SFrame, i: usize, rs: Seq<CompilerRegister>, k: nat)
    requires
        k <= rs.len(),
        spec_load_all(b, f, i, rs.subrange(0, k as int)) is Err,
    ensures
        spec_load_all(b, f, i, rs) == spec_load_all(b, f, i, rs.subrange(0, k as int)),
    decreases rs.len() - k,
{
    if k < rs.len() {
        assert(rs.subrange(0, (k + 1) as int).drop_last() =~= rs.subrange(0, k as int));
        lemma_load_all_prefix_err(b, f, i, rs, k + 1);
    } else {
        assert(rs.subrange(0, k as int) =~= rs);
    }
}

proof fn lemma_find_hash(es: Seq<(SValue, SValue)>, h: i128, j: int)
    requires
        0 <= j,
    ensures
        match find_hash(es, h, j) {
            Some(m) => j <= m < es.len() && key_hash(es[m].0) == h,
            None => forall|t: int| j <= t < es.len() ==> key_hash(#[trigger] es[t].0) != h,
        },
    decreases es.len() - j,
{
    if j < es.len() && key_hash(es[j].0) != h {
        lemma_find_hash(es, h, j + 1);
    }
}

/// In a well-formed dictionary, storing by the index and storing by the
/// first entry of the same hash agree.
pub proof fn lemma_put_entry(index: Map<i128, usize>, es: Seq<(SValue, SValue)>, h: i128, k: SValue, v: SValue)
    requires
        dict_wf(index, es),
    ensures
        dict_put(index, es, h, k, v) == put_entry(es, h, k, v),
{
    lemma_find_hash(es, h, 0);
    match find_hash(es, h, 0) {
        Some(m) => {
            assert(spec_hash(es[m].0) is Ok);
            assert(index[key_hash(es[m].0)] == m);
        },
        None => {
            if index.contains_key(h) {
                let m = index[h] as int;
                assert(key_hash(es[m].0) == h);
            }
        },
    }
}

proof fn lemma_all_strs_prefix(xs: Seq<SValue>, k: nat)
    requires
        k <= xs.len(),
        all_strs(xs.subrange(0, k as int)) is None,
    ensures
        all_strs(xs) is None,
    decreases xs.len() - k,
{
    if k < xs.len() {
        assert(xs.subrange(0, (k + 1) as int).drop_last() =~= xs.subrange(0, k as int));
        lemma_all_strs_prefix(xs, k + 1);
    } else {
        assert(xs.subrange(0, k as int) =~= xs);
    }
}

proof fn lemma_all_ints_prefix(xs: Seq<SValue>, k: nat)
    requires
        k <= xs.len(),
        all_ints(xs.subrange(0, k as int)) is None,
    ensures
        all_ints(xs) is None,
    decreases xs.len() - k,
{
    if k < xs.len() {
        assert(xs.subrange(0, (k + 1) as int).drop_last() =~= xs.subrange(0, k as int));
        lemma_all_ints_prefix(xs, k + 1);
    } else {
        assert(xs.subrange(0, k as int) =~= xs);
    }
}

fn strs_of(items: &Vec<Value>) -> (r: Option<Vec<String>>)
    ensures
        match all_strs(values_view(items@)) {
            Some(ss) => r is Some && r->Some_0@.map_values(|t: String| t@) == ss,
            None => r is None,
        },
{
    let ghost xs = values_view(items@);
    proof {
        lemma_values_view_len(items@);
        assert(xs.subrange(0, 0).len() == 0);
    }
    let mut out: Vec<String> = Vec::new();
    let mut k: usize = 0;
    proof {
        assert(out@.map_values(|t: String| t@) =~= seq![]);
    }
    while k < items.len()
        invariant
            xs == values_view(items@),
            xs.len() == items.len(),
            forall|j: int| 0 <= j < items.len() ==> #[trigger] xs[j] == value_view(items@[j]),
            k <= items.len(),
            all_strs(xs.subrange(0, k as int)) == Some(out@.map_values(|t: String| t@)),
        decreases items.len() - k,
    {
        proof {
            assert(xs.subrange(0, k + 1).drop_last() =~= xs.subrange(0, k as int));
            assert(xs.subrange(0, k + 1).last() == xs[k as int]);
        }
        match &items[k] {
            Value::Str(t) => {
                out.push(t.clone());
                proof {
                    assert(out@.map_values(|t: String| t@) =~= all_strs(xs.subrange(0, k as int))->Some_0.push(
                        t@,
                    ));
                }
            },
            _ => {
                proof {
                    lemma_all_strs_prefix(xs, (k + 1) as nat);
                }
                return None;
            },
        }
        k = k + 1;
    }
    proof {
        assert(xs.subrange(0, k as int) =~= xs);
    }
    Some(out)
}

fn ints_of(items: &Vec<Value>) -> (r: Option<Vec<isize>>)
    ensures
        match all_ints(values_view(items@)) {
            Some(ns) => r is Some && r->Some_0@ == ns,
            None => r is None,
        },
{
    let ghost xs = values_view(items@);
    proof {
        lemma_values_view_len(items@);
        assert(xs.subrange(0, 0).len() == 0);
    }
    let mut out: Vec<isize> = Vec::new();
    let mut k: usize = 0;
    proof {
        assert(out@ =~= seq![]);
    }
    while k < items.len()
        invariant
            xs == values_view(items@),
            xs.len() == items.len(),
            forall|j: int| 0 <= j < items.len() ==> #[trigger] xs[j] == value_view(items@[j]),
            k <= items.len(),
            all_ints(xs.subrange(0, k as int)) == Some(out@),
        decreases items.len() - k,
    {
        proof {
            assert(xs.subrange(0, k + 1).drop_last() =~= xs.subrange(0, k as int));
            assert(xs.subrange(0, k + 1).last() == xs[k as int]);
        }
        match &items[k] {
            Value::Int(n) => {
                out.push(*n);
            },
            _ => {
                proof {
                    lemma_all_ints_prefix(xs, (k + 1) as nat);
                }
                return None;
            },
        }
        k = k + 1;
    }
    proof {
        assert(xs.subrange(0, k as int) =~= xs);
    }
    Some(out)
}

/// The function `MakeFunction` builds.
fn make_fn(bc: &Bytecode, nameidx: usize, argsidx: usize, codeidx: usize, idxsidx: usize) -> (r: Result<Value, RunError>)
    ensures
        val_res(spec_make_fn(bytecode_view(*bc), nameidx, argsidx, codeidx, idxsidx), r),
{
    proof {
        lemma_values_view_len(bc.consts@);
    }
    let n: usize = bc.consts.len();
    if nameidx >= n || argsidx >= n || codeidx >= n || idxsidx >= n {
        return Err(fault(Fault::BadOperand));
    }
    match &bc.consts[nameidx] {
        Value::Str(name) => match &bc.consts[argsidx] {
            Value::List(args) => match &bc.consts[codeidx] {
                Value::Code(code) => match &bc.consts[idxsidx] {
                    Value::List(idxs) => {
                        let ss = strs_of(args);
                        let ns = ints_of(idxs);
                        match ss {
                            Some(ss) => match ns {
                                Some(ns) => Ok(
                                    Value::Fn(
                                        Box::new(
                                            FnData {
                                                code: duplicate_bytecode(code),
                                                args: ss,
                                                indices: ns,
                                                name: name.clone(),
                                            },
                                        ),
                                    ),
                                ),
                                None => Err(fault(Fault::BadConstant)),
                            },
                            None => Err(fault(Fault::BadConstant)),
                        }
                    },
                    _ => Err(fault(Fault::BadConstant)),
                },
                _ => Err(fault(Fault::BadConstant)),
            },
            _ => Err(fault(Fault::BadConstant)),
        },
        _ => Err(fault(Fault::BadConstant)),
    }
}

/// The variable slots of a call (`bind_args`).
fn bind(n: usize, args: &Vec<Value>, idx: &Vec<isize>) -> (r: Vec<Option<Value>>)
    ensures
        r@.map_values(|o: Option<Value>| opt_view(o)) == bind_args(
            n as nat,
            args@.map_values(|v: Value| value_view(v)),
            idx@,
        ),
{
    let ghost av = args@.map_values(|v: Value| value_view(v));
    let mut vars: Vec<Option<Value>> = Vec::new();
    let mut t: usize = 0;
    while t < n
        invariant
            t <= n,
            vars.len() == t,
            forall|j: int| 0 <= j < t ==> (#[trigger] vars@[j]) is None,
        decreases n - t,
    {
        vars.push(None);
        t = t + 1;
    }
    proof {
        assert(vars@.map_values(|o: Option<Value>| opt_view(o)) =~= bind_args(
            n as nat,
            av.subrange(0, 0),
            idx@.subrange(0, 0),
        ));
    }
    let m: usize = if args.len() < idx.len() {
        args.len()
    } else {
        idx.len()
    };
    let mut k: usize = 0;
    while k < m
        invariant
            av == args@.map_values(|v: Value| value_view(v)),
            m <= args.len(),
            m <= idx.len(),
            k <= m,
            vars.len() == n,
            vars@.map_values(|o: Option<Value>| opt_view(o)) == bind_args(
                n as nat,
                av.subrange(0, k as int),
                idx@.subrange(0, k as int),
            ),
        decreases m - k,
    {
        let ghost prev = vars@.map_values(|o: Option<Value>| opt_view(o));
        proof {
            assert(av.subrange(0, k + 1).subrange(0, k as int) =~= av.subrange(0, k as int));
            assert(idx@.subrange(0, k + 1).subrange(0, k as int) =~= idx@.subrange(0, k as int));
            assert(av.subrange(0, k + 1)[k as int] == av[k as int]);
            assert(idx@.subrange(0, k + 1)[k as int] == idx@[k as int]);
        }
        let j: isize = idx[k];
        if 0 <= j && (j as usize) < n {
            let v = args[k].duplicate();
            vars.set(j as usize, Some(v));
            proof {
                assert(vars@.map_values(|o: Option<Value>| opt_view(o)) =~= prev.update(j as int, Some(av[k as int])));
            }
        }
        k = k + 1;
    }
    proof {
        if m == 0 {
            assert(av.subrange(0, 0).len() == 0);
        } else {
            assert(av.subrange(0, m as int).subrange(0, m - 1) =~= av.subrange(0, m - 1));
            assert(idx@.subrange(0, m as int).subrange(0, m - 1) =~= idx@.subrange(0, m - 1));
            assert(av.subrange(0, m - 1) =~= av.subrange(0, m as int).subrange(0, m - 1));
        }
        assert(bind_args(n as nat, av, idx@) == bind_args(
            n as nat,
            av.subrange(0, m as int),
            idx@.subrange(0, m as int),
        )) by {
            if m > 0 {
                assert(av.subrange(0, m - 1) == av.subrange(0, m as int).subrange(0, m - 1));
                assert(idx@.subrange(0, m - 1) == idx@.subrange(0, m as int).subrange(0, m - 1));
            }
        }
    }
    vars
}

/// A fresh frame for `bc` with variable slots `vars`.
fn fresh(bc: &Bytecode, vars: Vec<Option<Value>>) -> (f: Frame)
    ensures
        frame_view(f) == fresh_frame(bytecode_view(*bc), vars@.map_values(|o: Option<Value>| opt_view(o))),
{
    let n: usize = slot_of(bc.n_registers);
    let mut regs: Vec<Value> = Vec::new();
    let mut t: usize = 0;
    while t < n
        invariant
            t <= n,
            regs.len() == t,
            forall|j: int| 0 <= j < t ==> (#[trigger] regs@[j]) is NoneObject,
        decreases n - t,
    {
        regs.push(Value::NoneObject);
        t = t + 1;
    }
    let f = Frame { registers: regs, variables: vars };
    proof {
        assert(frame_view(f).regs =~= Seq::new(n as nat, |j: int| SValue::NoneObject));
    }
    f
}

/// The variable slots of a unit run as a program: all unset.
fn unset(bc: &Bytecode) -> (r: Vec<Option<Value>>)
    ensures
        r@.map_values(|o: Option<Value>| opt_view(o)) == unset_vars(bytecode_view(*bc)),
{
    let n: usize = slot_of(bc.n_variables);
    let mut vars: Vec<Option<Value>> = Vec::new();
    let mut t: usize = 0;
    while t < n
        invariant
            t <= n,
            vars.len() == t,
            forall|j: int| 0 <= j < t ==> (#[trigger] vars@[j]) is None,
        decreases n - t,
    {
        vars.push(None);
        t = t + 1;
    }
    proof {
        assert(vars@.map_values(|o: Option<Value>| opt_view(o)) =~= unset_vars(bytecode_view(*bc)));
    }
    vars
}

/// The dictionary of `BuildDict`.
fn build_dict(bc: &Bytecode, f: &Frame, i: usize, ks: &Vec<CompilerRegister>, vs: &Vec<CompilerRegister>) -> (r: Result<Value, RunError>)
    ensures
        match spec_build_dict(bytecode_view(*bc), frame_view(*f), i, ks@, vs@, 0, seq![]) {
            Ok(es) => r is Ok && r->Ok_0@ == SValue::Dict(es),
            Err(e) => r is Err && run_error_view(r->Err_0) == e,
        },
{
    let ghost b = bytecode_view(*bc);
    let ghost fv = frame_view(*f);
    let mut d = Dict::new();
    let mut j: usize = 0;
    while j < ks.len() && j < vs.len()
        invariant
            b == bytecode_view(*bc),
            fv == frame_view(*f),
            d.wf(),
            j <= ks.len(),
            spec_build_dict(b, fv, i, ks@, vs@, 0, seq![]) == spec_build_dict(
                b,
                fv,
                i,
                ks@,
                vs@,
                j as nat,
                entries_view(d.entries@),
            ),
        decreases ks.len() - j,
    {
        let k = match load(bc, f, i, ks[j]) {
            Err(e) => {
                return Err(e);
            },
            Ok(k) => k,
        };
        let v = match load(bc, f, i, vs[j]) {
            Err(e) => {
                return Err(e);
            },
            Ok(v) => v,
        };
        let ghost kv = k@;
        let ghost vv = v@;
        let ghost old_es = entries_view(d.entries@);
        let ghost old_ix = index_contents(d.index);
        match d.insert(k, v) {
            Err(exc) => {
                return Err(RunError::Raised { exc, start: Position::zero(), end: Position::zero() });
            },
            Ok(()) => {
                proof {
                    lemma_put_entry(old_ix, old_es, key_hash(kv), kv, vv);
                }
            },
        }
        j = j + 1;
    }
    Ok(Value::Dict(Box::new(d)))
}

pub open spec fn step_res(s: Result<Step, SRunError>, r: Result<Option<Value>, RunError>, after: SFrame) -> bool {
    match s {
        Err(e) => r is Err && run_error_view(r->Err_0) == e,
        Ok(Step::Return(v)) => r is Ok && r->Ok_0 is Some && r->Ok_0->Some_0@ == v,
        Ok(Step::Next(f2)) => r is Ok && r->Ok_0 is None && after == f2,
    }
}

fn arith_name_text(op: ArithOp) -> (r: &'static str)
    ensures
        r@ == arith_name_of(op),
{
    match op {
        ArithOp::Add => "add",
        ArithOp::Sub => "sub",
        ArithOp::Mul => "mul",
        ArithOp::Div => "div",
    }
}

/// A binary arithmetic instruction.
fn exec_arith(
    bc: &Bytecode,
    f: &mut Frame,
    op: ArithOp,
    a: CompilerRegister,
    b: CompilerRegister,
    result: CompilerRegister,
    i: usize,
) -> (r: Result<Option<Value>, RunError>)
    ensures
        step_res(spec_arith(bytecode_view(*bc), frame_view(*old(f)), op, a, b, result, i), r, frame_view(*final(f))),
{
    let va = match load(bc, f, i, a) {
        Err(e) => {
            return Err(e);
        },
        Ok(v) => v,
    };
    match va {
        Value::Int(x) => {
            let vb = match load(bc, f, i, b) {
                Err(e) => {
                    return Err(e);
                },
                Ok(v) => v,
            };
            match int_arith(op, x, &vb) {
                Err(exc) => Err(raise_at_exec(bc, i, exc)),
                Ok(v) => match store(f, result, v) {
                    Err(e) => Err(e),
                    Ok(()) => Ok(None),
                },
            }
        },
        _ => {
            let exc = not_defined(arith_name_text(op), &va);
            Err(raise_placed_exec(bc, i, exc))
        },
    }
}

fn finish_store(f: &mut Frame, out: CompilerRegister, r: Result<Value, RunError>) -> (res: Result<Option<Value>, RunError>)
    ensures
        step_res(
            then_store(frame_view(*old(f)), out, match r {
                Ok(v) => Ok(v@),
                Err(e) => Err(run_error_view(e)),
            }),
            res,
            frame_view(*final(f)),
        ),
{
    match r {
        Err(e) => Err(e),
        Ok(v) => match store(f, out, v) {
            Err(e) => Err(e),
            Ok(()) => Ok(None),
        },
    }
}

/// Runs instruction `pc` of `bc` in frame `f`.
fn step(bc: &Bytecode, f: &mut Frame, pc: usize, fuel: u32) -> (r: Result<Option<Value>, RunError>)
    requires
        pc < bc.instructions.len(),
    ensures
        step_res(spec_step(bytecode_view(*bc), frame_view(*old(f)), pc as nat, fuel as nat), r, frame_view(*final(f))),
    decreases fuel, 2nat,
{
    match &bc.instructions[pc] {
        CompilerInstruction::BinaryAdd { a, b, result, i } => exec_arith(bc, f, ArithOp::Add, *a, *b, *result, *i),
        CompilerInstruction::BinarySub { a, b, result, i } => exec_arith(bc, f, ArithOp::Sub, *a, *b, *result, *i),
        CompilerInstruction::BinaryMul { a, b, result, i } => exec_arith(bc, f, ArithOp::Mul, *a, *b, *result, *i),
        CompilerInstruction::BinaryDiv { a, b, result, i } => exec_arith(bc, f, ArithOp::Div, *a, *b, *result, *i),
        CompilerInstruction::UnaryNeg { a, result, i } => {
            let va = match load(bc, f, *i, *a) {
                Err(e) => {
                    return Err(e);
                },
                Ok(v) => v,
            };
            match va {
                Value::Int(x) => match int_neg(x) {
                    Err(exc) => Err(raise_at_exec(bc, *i, exc)),
                    Ok(v) => finish_store(f, *result, Ok(v)),
                },
                _ => {
                    let exc = not_defined("neg", &va);
                    Err(raise_placed_exec(bc, *i, exc))
                },
            }
        },
        CompilerInstruction::CopyRegister { from, to, i } => {
            let r = load(bc, f, *i, *from);
            finish_store(f, *to, r)
        },
        CompilerInstruction::MakeFunction { nameidx, argsidx, codeidx, idxsidx, out } => {
            let r = make_fn(bc, *nameidx, *argsidx, *codeidx, *idxsidx);
            finish_store(f, *out, r)
        },
        CompilerInstruction::Call { callableregister, result, arg_registers, i } => {
            let callable = match load(bc, f, *i, *callableregister) {
                Err(e) => {
                    return Err(e);
                },
                Ok(v) => v,
            };
            let regs = operand_values(arg_registers);
            let args = match load_all(bc, f, *i, &regs) {
                Err(e) => {
                    return Err(e);
                },
                Ok(a) => a,
            };
            match callable {
                Value::Fn(fd) => match fn_call(&fd, &args, fuel) {
                    Err(e) => Err(e),
                    Ok(MethodValue::Error(exc)) => Err(raise_at_exec(bc, *i, exc)),
                    Ok(MethodValue::Val(v)) => finish_store(f, *result, Ok(v)),
                },
                _ => {
                    let exc = not_defined("call", &callable);
                    Err(raise_placed_exec(bc, *i, exc))
                },
            }
        },
        CompilerInstruction::Return { register, i } => match load(bc, f, *i, *register) {
            Err(e) => Err(e),
            Ok(v) => Ok(Some(v)),
        },
        CompilerInstruction::BuildList { result, value_registers, i } => {
            match load_all(bc, f, *i, value_registers) {
                Err(e) => Err(e),
                Ok(vs) => {
                    let ghost vv = vs@.map_values(|v: Value| value_view(v));
                    let l = Value::List(vs);
                    proof {
                        lemma_values_view_map(vs@);
                    }
                    finish_store(f, *result, Ok(l))
                },
            }
        },
        CompilerInstruction::BuildDict { result, key_registers, value_registers, i } => {
            let r = build_dict(bc, f, *i, key_registers, value_registers);
            finish_store(f, *result, r)
        },
    }
}

/// `values_view` and the item-wise view agree.
proof fn lemma_values_view_map(s: Seq<Value>)
    ensures
        values_view(s) == s.map_values(|v: Value| value_view(v)),
{
    lemma_values_view_len(s);
    assert(values_view(s) =~= s.map_values(|v: Value| value_view(v)));
}

/// The value operands of the argument contexts of a call.
fn operand_values(cs: &Vec<crate::compiler::RegisterContext>) -> (r: Vec<CompilerRegister>)
    ensures
        r@ == ctx_values(ctxs_view(cs@)),
{
    proof {
        lemma_ctxs_view_len(cs@);
    }
    let mut out: Vec<CompilerRegister> = Vec::new();
    let mut k: usize = 0;
    while k < cs.len()
        invariant
            k <= cs.len(),
            ctxs_view(cs@).len() == cs.len(),
            forall|j: int| 0 <= j < cs.len() ==> #[trigger] ctxs_view(cs@)[j] == crate::compiler::ctx_view(cs@[j]),
            out.len() == k,
            forall|j: int| 0 <= j < k ==> out@[j] == ctx_values(ctxs_view(cs@))[j],
        decreases cs.len() - k,
    {
        out.push(cs[k].value);
        k = k + 1;
    }
    proof {
        assert(out@ =~= ctx_values(ctxs_view(cs@)));
    }
    out
}

pub open spec fn call_res(s: Result<MethodValue<SValue, SValue>, SRunError>, r: Result<MethodValue<Value, Value>, RunError>) -> bool {
    match s {
        Ok(MethodValue::Val(v)) => r matches Ok(MethodValue::Val(x)) && x@ == v,
        Ok(MethodValue::Error(e)) => r matches Ok(MethodValue::Error(x)) && x@ == e,
        Err(e) => r is Err && run_error_view(r->Err_0) == e,
    }
}

/// Calls function value `func` on `args` (`fn_call`): a `ValueExc` when the
/// number of arguments is not the number of its parameters, else what its
/// body gives, run in a fresh frame with the arguments in their slots.
pub fn fn_call(func: &FnData, args: &Vec<Value>, fuel: u32) -> (r: Result<MethodValue<Value, Value>, RunError>)
    ensures
        call_res(
            spec_fn_call(
                bytecode_view(func.code),
                func.args@.map_values(|a: String| a@),
                func.indices@,
                args@.map_values(|v: Value| value_view(v)),
                fuel as nat,
            ),
            r,
        ),
    decreases fuel, 1nat,
{
    if args.len() != func.args.len() {
        let mut m = concat3("Expected ", uint_to_string(args.len() as u128).as_str(), " arguments, got ");
        m.append(uint_to_string(func.args.len() as u128).as_str());
        proof {
            assert(m@ =~= arity_msg(args@.len(), func.args@.len()));
        }
        return Ok(MethodValue::Error(exc_from_str(ExcKind::ValueExc, m)));
    }
    match invoke(&func.code, args, &func.indices, fuel) {
        Ok(v) => Ok(MethodValue::Val(v)),
        Err(e) => Err(e),
    }
}

/// Calling a method bound to `inst`: its function called on `inst`, then
/// `args`; a `MethodNotDefinedExc` when the function cannot be called.
pub open spec fn spec_method_call(fun: SValue, inst: SValue, args: Seq<SValue>, fuel: nat) -> Result<
    MethodValue<SValue, SValue>,
    SRunError,
> {
    match fun {
        SValue::Fn(code, params, idx, _) => spec_fn_call(*code, params, idx, seq![inst] + args, fuel),
        _ => Ok(MethodValue::Error(exc_value(ExcKind::MethodNotDefinedExc, not_defined_msg("call"@, spec_typename(fun))))),
    }
}

/// Calls the method made of function `fun` bound to `inst` on `args`
/// (`method_call`).
pub fn method_call(fun: &Value, inst: &Value, args: &Vec<Value>, fuel: u32) -> (r: Result<MethodValue<Value, Value>, RunError>)
    ensures
        call_res(spec_method_call(fun@, inst@, args@.map_values(|v: Value| value_view(v)), fuel as nat), r),
{
    match fun {
        Value::Fn(fd) => {
            let mut all: Vec<Value> = Vec::new();
            all.push(inst.duplicate());
            let mut k: usize = 0;
            while k < args.len()
                invariant
                    k <= args.len(),
                    all.len() == k + 1,
                    all@[0]@ == inst@,
                    forall|j: int| 1 <= j <= k ==> #[trigger] all@[j]@ == args@[j - 1]@,
                decreases args.len() - k,
            {
                all.push(args[k].duplicate());
                k = k + 1;
            }
            proof {
                let am = all@.map_values(|v: Value| value_view(v));
                let want = seq![inst@] + args@.map_values(|v: Value| value_view(v));
                assert forall|j: int| 0 <= j < am.len() implies am[j] == want[j] by {
                    if j > 0 {
                        assert(all@[j]@ == args@[j - 1]@);
                    }
                }
                assert(am =~= want);
            }
            fn_call(fd, &all, fuel)
        },
        _ => Ok(MethodValue::Error(not_defined("call", fun))),
    }
}

/// Calls the function with code `code` and parameter slots `idx` on
/// `args`: the run of its body.
fn invoke(code: &Bytecode, args: &Vec<Value>, idx: &Vec<isize>, fuel: u32) -> (r: Result<Value, RunError>)
    ensures
        val_res(spec_invoke(bytecode_view(*code), args@.map_values(|v: Value| value_view(v)), idx@, fuel as nat), r),
    decreases fuel, 0nat,
{
    if fuel == 0 {
        return Err(fault(Fault::DepthExceeded));
    }
    let n: usize = slot_of(code.n_variables);
    let vars = bind(n, args, idx);
    let f = fresh(code, vars);
    run_frame(code, f, fuel - 1)
}

/// Runs `bc` from its first instruction in frame `f`.
#[verifier::loop_isolation(false)]
pub fn run_frame(bc: &Bytecode, f: Frame, fuel: u32) -> (r: Result<Value, RunError>)
    ensures
        val_res(spec_exec(bytecode_view(*bc), frame_view(f), 0, fuel as nat), r),
    decreases fuel, 3nat,
{
    let ghost b = bytecode_view(*bc);
    let ghost f0 = frame_view(f);
    let mut f = f;
    let mut pc: usize = 0;
    while pc < bc.instructions.len()
        invariant
            b == bytecode_view(*bc),
            pc <= bc.instructions.len(),
            spec_exec(b, f0, 0, fuel as nat) == spec_exec(b, frame_view(f), pc as nat, fuel as nat),
        decreases bc.instructions.len() - pc,
    {
        match step(bc, &mut f, pc, fuel) {
            Err(e) => {
                return Err(e);
            },
            Ok(Some(v)) => {
                return Ok(v);
            },
            Ok(None) => {},
        }
        pc = pc + 1;
    }
    Ok(Value::NoneObject)
}

/// Runs `bc` as a program (`run_interpreter`): `None` when it has no
/// instructions, else it runs in a fresh frame with every variable unset,
/// calls nesting at most `fuel` deep.
pub fn run_interpreter(bc: &Bytecode, fuel: u32) -> (r: Result<Value, RunError>)
    ensures
        val_res(spec_run(bytecode_view(*bc), fuel as nat), r),
{
    if bc.instructions.len() == 0 {
        return Ok(Value::NoneObject);
    }
    let vars = unset(bc);
    let f = fresh(bc, vars);
    run_frame(bc, f, fuel)
}


/// A read gives back what a store wrote: once `v` is stored into operand
/// `r`, reading `r` gives `v`, and reading any other operand gives what it
/// gave before.
pub proof fn law_load_after_store(bc: SBytecode, f: SFrame, i: usize, r: CompilerRegister, other: CompilerRegister, v: SValue)
    requires
        spec_store(f, r, v) is Ok,
        other != r,
    ensures
        spec_load(bc, spec_store(f, r, v)->Ok_0, i, r) == Ok::<SValue, SRunError>(v),
        spec_load(bc, spec_store(f, r, v)->Ok_0, i, other) == spec_load(bc, f, i, other),
{
}

// ---------------------------------------------------------------------------
// The depth limit only cuts runs off.

pub open spec fn cut_off() -> Result<SValue, SRunError> {
    Err(SRunError::Fault(Fault::DepthExceeded))
}

proof fn lemma_invoke_more_fuel(code: SBytecode, args: Seq<SValue>, idx: Seq<isize>, fuel: nat)
    ensures
        spec_invoke(code, args, idx, fuel) != cut_off() ==> spec_invoke(code, args, idx, fuel + 1)
            == spec_invoke(code, args, idx, fuel),
    decreases fuel, 0nat, 2nat,
{
    if fuel > 0 {
        let f = fresh_frame(code, bind_args(slot(code.n_variables as int) as nat, args, idx));
        lemma_exec_more_fuel(code, f, 0, (fuel - 1) as nat);
    }
}

proof fn lemma_step_more_fuel(bc: SBytecode, f: SFrame, pc: nat, fuel: nat)
    ensures
        !(spec_step(bc, f, pc, fuel) matches Err(SRunError::Fault(Fault::DepthExceeded))) ==> spec_step(
            bc,
            f,
            pc,
            fuel + 1,
        ) == spec_step(bc, f, pc, fuel),
    decreases fuel, bc.instructions.len() - pc, 0nat,
{
    if pc < bc.instructions.len() {
        match bc.instructions[pc as int] {
            SInstr::Call { callableregister, result, arg_registers, i } => {
                if let Ok(callable) = spec_load(bc, f, i, callableregister) {
                    if let Ok(args) = spec_load_all(bc, f, i, ctx_values(arg_registers)) {
                        if let SValue::Fn(code, params, idx, _) = callable {
                            lemma_invoke_more_fuel(*code, args, idx, fuel);
                        }
                    }
                }
            },
            _ => {},
        }
    }
}

proof fn lemma_exec_more_fuel(bc: SBytecode, f: SFrame, pc: nat, fuel: nat)
    ensures
        spec_exec(bc, f, pc, fuel) != cut_off() ==> spec_exec(bc, f, pc, fuel + 1) == spec_exec(bc, f, pc, fuel),
    decreases fuel, bc.instructions.len() - pc, 1nat,
{
    if pc < bc.instructions.len() {
        lemma_step_more_fuel(bc, f, pc, fuel);
        if let Ok(Step::Next(f2)) = spec_step(bc, f, pc, fuel) {
            lemma_exec_more_fuel(bc, f2, pc + 1, fuel);
        }
    }
}

/// Allowing calls to nest deeper changes nothing of a run that the depth
/// limit did not cut off.
pub proof fn law_more_fuel_same_result(bc: SBytecode, fuel: nat)
    ensures
        spec_run(bc, fuel) != cut_off() ==> spec_run(bc, fuel + 1) == spec_run(bc, fuel),
{
    if bc.instructions.len() > 0 {
        lemma_exec_more_fuel(bc, fresh_frame(bc, unset_vars(bc)), 0, fuel);
    }
}

} // verus!
