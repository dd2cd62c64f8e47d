//! Errors found while parsing and compiling, and the text that reports them.
use vstd::prelude::*;
use vstd::string::StringExecFns;
use vstd::utf8::{encode_utf8, valid_utf8};
use crate::ops::{concat3, digits_of, uint_to_string};
use crate::text::push_char;
use crate::lexer::{Token, TokenType};
use crate::parser::Position;

verus! {

#[derive(Clone, Copy, PartialEq, Eq, Structural, Debug)]
pub enum ErrorType {
    UnexpectedToken,
    UnknownKeyword,
    UnexpectedEOF,
    FunctionNotExpression,
    TrailingAtomics,
}

/// What exactly was wrong where an error was raised.
#[derive(Clone, Copy, PartialEq, Eq, Structural, Debug)]
pub enum ErrorDetail {
    /// An expression was expected: none of its first tokens stood there.
    ExpectedAtom,
    /// Atoms followed each other with no operator between them.
    Trailing,
    /// A keyword that starts no statement.
    Keyword,
    /// The text ended where a name was expected.
    EofExpectingIdentifier,
    /// A token of one kind was expected and one of another was found.
    Expected { expected: TokenType, got: TokenType },
    /// Only function definitions may stand in a class body.
    ExpectedFn,
    /// A function definition stood where an expression was needed.
    FunctionDefinition,
}

/// An error with the place in the source where it was raised.
#[derive(Clone, Copy, PartialEq, Eq, Structural, Debug)]
pub struct ParseError {
    pub tp: ErrorType,
    pub detail: ErrorDetail,
    pub pos: Position,
}

pub open spec fn error_number(tp: ErrorType) -> u8 {
    match tp {
        ErrorType::UnexpectedToken => 1,
        ErrorType::UnknownKeyword => 2,
        ErrorType::UnexpectedEOF => 3,
        ErrorType::FunctionNotExpression => 4,
        ErrorType::TrailingAtomics => 5,
    }
}

/// The number of an error kind, as printed in `error[E00n]`.
pub fn error_code(tp: ErrorType) -> (n: u8)
    ensures
        n == error_number(tp),
        1 <= n <= 5,
{
    match tp {
        ErrorType::UnexpectedToken => 1,
        ErrorType::UnknownKeyword => 2,
        ErrorType::UnexpectedEOF => 3,
        ErrorType::FunctionNotExpression => 4,
        ErrorType::TrailingAtomics => 5,
    }
}

/// The error kind with a given number, if there is one.
pub fn error_from_code(n: i32) -> (r: Option<ErrorType>)
    ensures
        r matches Some(tp) ==> error_number(tp) == n,
        r is None <==> !(1 <= n <= 5),
{
    if n == 1 {
        Some(ErrorType::UnexpectedToken)
    } else if n == 2 {
        Some(ErrorType::UnknownKeyword)
    } else if n == 3 {
        Some(ErrorType::UnexpectedEOF)
    } else if n == 4 {
        Some(ErrorType::FunctionNotExpression)
    } else if n == 5 {
        Some(ErrorType::TrailingAtomics)
    } else {
        None
    }
}

/// The explanation of an error kind.
pub fn repr_err(tp: ErrorType) -> (s: &'static str)
    ensures
        s@ == match tp {
            ErrorType::UnexpectedToken =>
                "Unexpected token: This token is not in an appropriate spot."@,
            ErrorType::UnknownKeyword =>
                "Unknown keyword: Keyword was specified that does not exist."@,
            ErrorType::UnexpectedEOF =>
                "Unexpected EOF: While parsing, encountered end-of-file (EOF) that is not valid."@,
            ErrorType::FunctionNotExpression =>
                "Function is not an expression: Functions may not be used as expressions"@,
            ErrorType::TrailingAtomics =>
                "Trailing atomic tokens are not allowed: Code like: `1a` or `a 1` is not allowed."@,
        },
{
    match tp {
        ErrorType::UnexpectedToken => "Unexpected token: This token is not in an appropriate spot.",
        ErrorType::UnknownKeyword => "Unknown keyword: Keyword was specified that does not exist.",
        ErrorType::UnexpectedEOF => {
            "Unexpected EOF: While parsing, encountered end-of-file (EOF) that is not valid."
        },
        ErrorType::FunctionNotExpression => {
            "Function is not an expression: Functions may not be used as expressions"
        },
        ErrorType::TrailingAtomics => {
            "Trailing atomic tokens are not allowed: Code like: `1a` or `a 1` is not allowed."
        },
    }
}

// ---------------------------------------------------------------------------
// Reports.

/// How a token kind is named in messages.
pub open spec fn token_name(t: TokenType) -> Seq<char> {
    match t {
        TokenType::Decimal => "decimal"@,
        TokenType::Newline => "newline"@,
        TokenType::Unknown => "UNKNOWN"@,
        TokenType::Plus => "plus"@,
        TokenType::Eof => "EOF"@,
        TokenType::Asterisk => "asterisk"@,
        TokenType::Slash => "slash"@,
        TokenType::Hyphen => "hyphen"@,
        TokenType::Equals => "equals"@,
        TokenType::Identifier => "identifier"@,
        TokenType::LParen => "l-paren"@,
        TokenType::RParen => "r-paren"@,
        TokenType::LCurly => "l-curly"@,
        TokenType::RCurly => "r-curly"@,
        TokenType::Keyword => "keyword"@,
        TokenType::Comma => "comma"@,
        TokenType::String => "string"@,
        TokenType::LSquare => "l-square"@,
        TokenType::RSquare => "r-square"@,
        TokenType::Colon => "colon"@,
    }
}

/// The name of a token kind.
pub fn token_name_of(t: TokenType) -> (r: &'static str)
    ensures
        r@ == token_name(t),
{
    match t {
        TokenType::Decimal => "decimal",
        TokenType::Newline => "newline",
        TokenType::Unknown => "UNKNOWN",
        TokenType::Plus => "plus",
        TokenType::Eof => "EOF",
        TokenType::Asterisk => "asterisk",
        TokenType::Slash => "slash",
        TokenType::Hyphen => "hyphen",
        TokenType::Equals => "equals",
        TokenType::Identifier => "identifier",
        TokenType::LParen => "l-paren",
        TokenType::RParen => "r-paren",
        TokenType::LCurly => "l-curly",
        TokenType::RCurly => "r-curly",
        TokenType::Keyword => "keyword",
        TokenType::Comma => "comma",
        TokenType::String => "string",
        TokenType::LSquare => "l-square",
        TokenType::RSquare => "r-square",
        TokenType::Colon => "colon",
    }
}

/// How a token is shown: its kind's name, then its text in quotes.
pub open spec fn spec_token_text(kind: TokenType, data: Seq<char>) -> Seq<char> {
    token_name(kind) + ": '"@ + data + "'"@
}

/// The text of a token (`Token`'s display form).
pub fn token_text(t: &Token) -> (r: String)
    ensures
        r@ == spec_token_text(t.tp, t.data@),
{
    let mut r = concat3(token_name_of(t.tp), ": '", t.data.as_str());
    r.append("'");
    r
}

/// The message of an error.
pub open spec fn detail_message(d: ErrorDetail) -> Seq<char> {
    match d {
        ErrorDetail::ExpectedAtom =>
            "Invalid or unexpected token (expected one of 'decimal', 'identifier', '-', '(', 'string', '[')."@,
        ErrorDetail::Trailing => "Trailing atomic tokens are not allowed."@,
        ErrorDetail::Keyword => "Unknown keyword."@,
        ErrorDetail::EofExpectingIdentifier => "Unexpected EOF (expected one of 'identifier')."@,
        ErrorDetail::Expected { expected, got } => "Invalid or unexpected token (expected '"@ + token_name(
            expected,
        ) + "', got '"@ + token_name(got) + "')."@,
        ErrorDetail::ExpectedFn => "Invalid or unexpected token (expected one of 'fn')."@,
        ErrorDetail::FunctionDefinition => "Function definition is not an expression"@,
    }
}

/// The message of an error.
pub fn error_message(d: ErrorDetail) -> (r: String)
    ensures
        r@ == detail_message(d),
{
    match d {
        ErrorDetail::ExpectedAtom => "Invalid or unexpected token (expected one of 'decimal', 'identifier', '-', '(', 'string', '[').".to_owned(),
        ErrorDetail::Trailing => "Trailing atomic tokens are not allowed.".to_owned(),
        ErrorDetail::Keyword => "Unknown keyword.".to_owned(),
        ErrorDetail::EofExpectingIdentifier => "Unexpected EOF (expected one of 'identifier').".to_owned(),
        ErrorDetail::Expected { expected, got } => {
            let mut r = concat3("Invalid or unexpected token (expected '", token_name_of(expected), "', got '");
            r.append(token_name_of(got));
            r.append("').");
            r
        },
        ErrorDetail::ExpectedFn => "Invalid or unexpected token (expected one of 'fn').".to_owned(),
        ErrorDetail::FunctionDefinition => "Function definition is not an expression".to_owned(),
    }
}

/// The first line of a report: `error[E00n]: message`.
pub open spec fn header_text(tp: ErrorType, msg: Seq<char>) -> Seq<char> {
    "error[E00"@ + digits_of(error_number(tp) as nat) + "]: "@ + msg
}

/// The lines of `data`, split at each newline byte, from byte `i` on, the
/// current line holding `cur` so far.
pub open spec fn split_from(data: Seq<u8>, i: nat, cur: Seq<u8>) -> Seq<Seq<u8>>
    decreases data.len() - i,
{
    if i >= data.len() {
        seq![cur]
    } else if data[i as int] == 10 {
        seq![cur] + split_from(data, i + 1, seq![])
    } else {
        split_from(data, i + 1, cur.push(data[i as int]))
    }
}

pub open spec fn split_lines(data: Seq<u8>) -> Seq<Seq<u8>> {
    split_from(data, 0, seq![])
}

/// The marks under a line of `n` bytes: `^` under the columns `start` up to
/// `end`, spaces elsewhere.
pub open spec fn arrows_text(n: nat, start: usize, end: usize) -> Seq<char> {
    Seq::new(n, |i: int| if start <= i < end { '^' } else { ' ' })
}

/// What an error report shows, its colours aside.
pub struct ErrorReport {
    /// `error[E00n]: message`.
    pub header: String,
    /// `file:line:column`, counted from 1.
    pub location: String,
    /// The number of the line, counted from 1.
    pub line_number: String,
    /// The source line.
    pub snippet: String,
    /// The marks under the columns of the error.
    pub arrows: String,
}

/// Why a report could not be made: the source has no such line, or the
/// line is not UTF-8.
#[derive(Clone, Copy, PartialEq, Eq, Structural, Debug)]
pub enum ReportFault {
    NoLine,
    NotUtf8,
}

/// The text of `bytes`, if they are UTF-8 (`String::from_utf8`).
#[verifier::external_body]
fn utf8_text(bytes: Vec<u8>) -> (r: Option<String>)
    ensures
        r is Some <==> valid_utf8(bytes@),
        r matches Some(s) ==> encode_utf8(s@) == bytes@,
{
    String::from_utf8(bytes).ok()
}

/// The lines of `data` (`split` at each newline byte).
pub fn source_lines(data: &Vec<u8>) -> (r: Vec<Vec<u8>>)
    ensures
        r@.map_values(|l: Vec<u8>| l@) == split_lines(data@),
{
    let mut lines: Vec<Vec<u8>> = Vec::new();
    let mut cur: Vec<u8> = Vec::new();
    let mut i: usize = 0;
    proof {
        assert(lines@.map_values(|l: Vec<u8>| l@) + split_from(data@, 0, cur@) =~= split_lines(data@));
    }
    while i < data.len()
        invariant
            i <= data.len(),
            lines@.map_values(|l: Vec<u8>| l@) + split_from(data@, i as nat, cur@) == split_lines(data@),
        decreases data.len() - i,
    {
        let ghost before = lines@.map_values(|l: Vec<u8>| l@);
        let ghost c = cur@;
        if data[i] == 10 {
            let done = cur;
            cur = Vec::new();
            lines.push(done);
            proof {
                assert(lines@.map_values(|l: Vec<u8>| l@) =~= before.push(c));
                assert(before + (seq![c] + split_from(data@, (i + 1) as nat, seq![])) =~= before.push(c)
                    + split_from(data@, (i + 1) as nat, seq![]));
                assert(cur@ =~= seq![]);
            }
        } else {
            cur.push(data[i]);
        }
        i = i + 1;
    }
    let ghost before = lines@.map_values(|l: Vec<u8>| l@);
    let ghost c = cur@;
    lines.push(cur);
    proof {
        assert(lines@.map_values(|l: Vec<u8>| l@) =~= before + seq![c]);
    }
    lines
}

fn arrows_of(n: usize, start: usize, end: usize) -> (r: String)
    ensures
        r@ == arrows_text(n as nat, start, end),
{
    let mut r = String::new();
    let mut i: usize = 0;
    while i < n
        invariant
            i <= n,
            r@ == arrows_text(i as nat, start, end),
        decreases n - i,
    {
        if start <= i && i < end {
            push_char(&mut r, '^');
        } else {
            push_char(&mut r, ' ');
        }
        i = i + 1;
        proof {
            assert(r@ =~= arrows_text(i as nat, start, end));
        }
    }
    r
}

/// The report of an error of kind `tp` with message `msg` at `pos` in the
/// file `file_name` whose bytes are `data` (`raise_error`'s text).
pub fn error_report(msg: &String, tp: ErrorType, pos: Position, file_name: &String, data: &Vec<u8>) -> (r: Result<ErrorReport, ReportFault>)
    ensures
        pos.line >= split_lines(data@).len() ==> r == Err::<ErrorReport, ReportFault>(ReportFault::NoLine),
        pos.line < split_lines(data@).len() && !valid_utf8(split_lines(data@)[pos.line as int]) ==> r == Err::<
            ErrorReport,
            ReportFault,
        >(ReportFault::NotUtf8),
        pos.line < split_lines(data@).len() && valid_utf8(split_lines(data@)[pos.line as int]) ==> r is Ok,
        r matches Ok(rep) ==> {
            &&& pos.line < split_lines(data@).len()
            &&& encode_utf8(rep.snippet@) == split_lines(data@)[pos.line as int]
            &&& rep.header@ == header_text(tp, msg@)
            &&& rep.location@ == file_name@ + ":"@ + digits_of((pos.line + 1) as nat) + ":"@ + digits_of((pos.startcol + 1) as nat)
            &&& rep.line_number@ == digits_of((pos.line + 1) as nat)
            &&& rep.arrows@ == arrows_text(split_lines(data@)[pos.line as int].len(), pos.startcol, pos.endcol)
        },
{
    let lines = source_lines(data);
    proof {
        assert(lines@.map_values(|l: Vec<u8>| l@).len() == lines.len());
    }
    if pos.line >= lines.len() {
        return Err(ReportFault::NoLine);
    }
    let line_bytes = lines[pos.line].clone();
    assert(line_bytes@ == split_lines(data@)[pos.line as int]);
    let n: usize = line_bytes.len();
    let snippet = match utf8_text(line_bytes) {
        None => {
            return Err(ReportFault::NotUtf8);
        },
        Some(t) => t,
    };
    let code = uint_to_string(error_code(tp) as u128);
    let mut header = concat3("error[E00", code.as_str(), "]: ");
    header.append(msg.as_str());
    let line_no = uint_to_string(pos.line as u128 + 1);
    let col_no = uint_to_string(pos.startcol as u128 + 1);
    let mut location = concat3(file_name.as_str(), ":", line_no.as_str());
    location.append(":");
    location.append(col_no.as_str());
    let arrows = arrows_of(n, pos.startcol, pos.endcol);
    proof {
        assert(header@ =~= header_text(tp, msg@));
        assert(location@ =~= file_name@ + ":"@ + digits_of((pos.line + 1) as nat) + ":"@ + digits_of((pos.startcol + 1) as nat));
    }
    Ok(ErrorReport { header, location, line_number: line_no, snippet, arrows })
}

/// Every kind of error has a number from 1 to 5, and no two kinds share
/// one, so `error_from_code` gives back the kind of `error_code`.
pub proof fn law_error_code_roundtrip(tp: ErrorType, other: ErrorType)
    ensures
        1 <= error_number(tp) <= 5,
        error_number(tp) == error_number(other) ==> tp == other,
{
}

} // verus!
