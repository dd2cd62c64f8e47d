//! A whole program: its source lexed, parsed, compiled and run.
use vstd::prelude::*;
use crate::compiler::{
    Bytecode, CompileError, Compiler, IntErrorKind, SBytecode, SCompileError, bytecode_view,
    compilable_statements, compile_error_view, empty_state, sc_generate, statements_compilable,
};
use crate::errors::ParseError;
use crate::interpreter::{RunError, SRunError, run_error_view, run_interpreter, spec_run};
use crate::lexer::{SToken, lex_start, spec_tokens, tokens_view};
use crate::objects::{ExcKind, SValue, Value};
use crate::ops::{concat3, exc_from_str, exc_value};
use crate::parser::Position;
use crate::parser::spec_generate_ast;

verus! {

/// Why a program did not run to its end.
#[derive(Debug)]
pub enum ProgramError {
    /// The source is too long for the lexer or the parser.
    TooLarge,
    /// The source holds no token (only blanks or comments), so the parser
    /// has nothing to start from.
    NoTokens,
    Parse(ParseError),
    /// The program holds a construct the compiler does not handle: a `-`
    /// operator, a class, or a function definition inside an expression.
    Unsupported,
    Compile(CompileError),
    Run(RunError),
}

pub enum SProgramError {
    TooLarge,
    NoTokens,
    Parse(ParseError),
    Unsupported,
    Compile(SCompileError),
    Run(SRunError),
}

pub open spec fn program_error_view(e: ProgramError) -> SProgramError {
    match e {
        ProgramError::TooLarge => SProgramError::TooLarge,
        ProgramError::NoTokens => SProgramError::NoTokens,
        ProgramError::Parse(p) => SProgramError::Parse(p),
        ProgramError::Unsupported => SProgramError::Unsupported,
        ProgramError::Compile(c) => SProgramError::Compile(compile_error_view(c)),
        ProgramError::Run(r) => SProgramError::Run(run_error_view(r)),
    }
}

/// The keywords of the language.
pub open spec fn keywords() -> Seq<Seq<char>> {
    seq!["fn"@, "return"@]
}

/// The tokens of a source text.
pub open spec fn program_tokens(data: Seq<u8>) -> Seq<SToken> {
    spec_tokens(data, keywords(), lex_start(data))
}

/// The compiled unit of a source text, or why there is none.
pub open spec fn spec_compile_source(data: Seq<u8>) -> Result<SBytecode, SProgramError> {
    let toks = program_tokens(data);
    if data.len() + 3 > usize::MAX || 3 * toks.len() + 20 > usize::MAX {
        Err(SProgramError::TooLarge)
    } else if toks.len() == 0 {
        Err(SProgramError::NoTokens)
    } else {
        match spec_generate_ast(toks) {
            Err(e) => Err(SProgramError::Parse(e)),
            Ok(ast) => if !compilable_statements(ast) {
                Err(SProgramError::Unsupported)
            } else {
                match sc_generate(empty_state(seq![]), ast) {
                    Err(e) => Err(SProgramError::Compile(e)),
                    Ok(bc) => Ok(bc),
                }
            },
        }
    }
}

/// What running a source text gives.
pub open spec fn spec_program(data: Seq<u8>, fuel: nat) -> Result<SValue, SProgramError> {
    match spec_compile_source(data) {
        Err(e) => Err(e),
        Ok(bc) => match spec_run(bc, fuel) {
            Ok(v) => Ok(v),
            Err(e) => Err(SProgramError::Run(e)),
        },
    }
}

fn keyword_list() -> (r: Vec<String>)
    ensures
        r@.map_values(|s: String| s@) == keywords(),
{
    let mut v: Vec<String> = Vec::new();
    v.push("fn".to_owned());
    v.push("return".to_owned());
    proof {
        assert(v@.map_values(|s: String| s@) =~= keywords());
    }
    v
}

/// Lexes, parses and compiles a source text.
pub fn compile_source(data: Vec<u8>) -> (r: Result<Bytecode, ProgramError>)
    ensures
        match spec_compile_source(data@) {
            Ok(b) => r is Ok && bytecode_view(r->Ok_0) == b,
            Err(e) => r is Err && program_error_view(r->Err_0) == e,
        },
{
    if data.len() > usize::MAX - 3 {
        return Err(ProgramError::TooLarge);
    }
    let ghost d = data@;
    let mut lexer = crate::lexer::new(data, keyword_list());
    proof {
        assert(crate::lexer::kw_view(lexer.kwds@) =~= keywords());
    }
    let tokens = lexer.tokenize();
    proof {
        assert(tokens_view(tokens@).len() == tokens.len());
    }
    if tokens.len() > (usize::MAX - 20) / 3 {
        return Err(ProgramError::TooLarge);
    }
    if tokens.len() == 0 {
        return Err(ProgramError::NoTokens);
    }
    let mut parser = crate::parser::new(tokens);
    let ast = match parser.generate_ast() {
        Err(e) => {
            return Err(ProgramError::Parse(e));
        },
        Ok(a) => a,
    };
    if !statements_compilable(&ast) {
        return Err(ProgramError::Unsupported);
    }
    let mut compiler = Compiler::new();
    match compiler.generate_bytecode(&ast) {
        Err(e) => Err(ProgramError::Compile(e)),
        Ok(b) => Ok(b),
    }
}

/// Runs a source text (`run_data`), calls nesting at most `fuel` deep.
pub fn run_data(data: Vec<u8>, fuel: u32) -> (r: Result<Value, ProgramError>)
    ensures
        match spec_program(data@, fuel as nat) {
            Ok(v) => r is Ok && r->Ok_0@ == v,
            Err(e) => r is Err && program_error_view(r->Err_0) == e,
        },
{
    let bc = match compile_source(data) {
        Err(e) => {
            return Err(e);
        },
        Ok(b) => b,
    };
    match run_interpreter(&bc, fuel) {
        Ok(v) => Ok(v),
        Err(e) => Err(ProgramError::Run(e)),
    }
}


/// The text of an integer literal's fault (`ParseIntError`'s message).
pub open spec fn int_error_text(k: IntErrorKind) -> Seq<char> {
    match k {
        IntErrorKind::Empty => "cannot parse integer from empty string"@,
        IntErrorKind::InvalidDigit => "invalid digit found in string"@,
        IntErrorKind::PosOverflow => "number too large to fit in target type"@,
        IntErrorKind::NegOverflow => "number too small to fit in target type"@,
    }
}

/// The exception a compile error raises, with the source range it is
/// raised at: a `NameExc` for an undefined name, an `OverflowExc` for an
/// invalid integer literal; the other compile errors raise none.
pub open spec fn spec_compile_exception(e: SCompileError) -> Option<(SValue, Position, Position)> {
    match e {
        SCompileError::NameNotDefined(name, start, end) => Some(
            (exc_value(ExcKind::NameExc, "Name '"@ + name + "' not defined"@), start, end),
        ),
        SCompileError::InvalidInt(k, start, end) => Some(
            (exc_value(ExcKind::OverflowExc, "int literal is invalid ("@ + int_error_text(k) + ")"@), start, end),
        ),
        _ => None,
    }
}

fn int_error_str(k: IntErrorKind) -> (r: &'static str)
    ensures
        r@ == int_error_text(k),
{
    match k {
        IntErrorKind::Empty => "cannot parse integer from empty string",
        IntErrorKind::InvalidDigit => "invalid digit found in string",
        IntErrorKind::PosOverflow => "number too large to fit in target type",
        IntErrorKind::NegOverflow => "number too small to fit in target type",
    }
}

/// The exception that compile error `e` raises, and where.
pub fn compile_exception(e: &CompileError) -> (r: Option<(Value, Position, Position)>)
    ensures
        match spec_compile_exception(compile_error_view(*e)) {
            None => r is None,
            Some((v, s, t)) => r matches Some((x, s2, t2)) && x@ == v && s2 == s && t2 == t,
        },
{
    match e {
        CompileError::NameNotDefined { name, start, end } => {
            let m = concat3("Name '", name.as_str(), "' not defined");
            Some((exc_from_str(ExcKind::NameExc, m), *start, *end))
        },
        CompileError::InvalidInt { kind, start, end } => {
            let m = concat3("int literal is invalid (", int_error_str(*kind), ")");
            Some((exc_from_str(ExcKind::OverflowExc, m), *start, *end))
        },
        _ => None,
    }
}

} // verus!
