//! Turns source bytes into tokens.
use vstd::prelude::*;
use crate::text::{
    alphabetic, alphanumeric, ascii_digit, byte_char, char_of_byte, is_alphabetic_byte,
    is_alphanumeric_byte, is_ascii_digit_byte, is_numeric_byte, is_whitespace_byte, numeric,
    push_char, whitespace,
};

verus! {

#[derive(Clone, Copy, PartialEq, Eq, Structural, Debug)]
pub enum TokenType {
    Decimal,
    Newline,
    Unknown,
    Plus,
    Eof,
    Asterisk,
    Slash,
    Hyphen,
    Equals,
    Identifier,
    LParen,
    RParen,
    LCurly,
    RCurly,
    Keyword,
    Comma,
    String,
    LSquare,
    RSquare,
    Colon,
}

/// A token: its text, its kind, and where it stands (`startcol` inclusive,
/// `endcol` exclusive).
#[derive(Debug)]
pub struct Token {
    pub data: String,
    pub tp: TokenType,
    pub line: usize,
    pub startcol: usize,
    pub endcol: usize,
}

/// The mathematical value of a token.
pub struct SToken {
    pub data: Seq<char>,
    pub tp: TokenType,
    pub line: usize,
    pub startcol: usize,
    pub endcol: usize,
}

impl View for Token {
    type V = SToken;

    open spec fn view(&self) -> SToken {
        SToken {
            data: self.data@,
            tp: self.tp,
            line: self.line,
            startcol: self.startcol,
            endcol: self.endcol,
        }
    }
}

impl Token {
    /// A copy of the token.
    pub fn duplicate(&self) -> (r: Token)
        ensures
            r@ == self@,
    {
        Token {
            data: self.data.clone(),
            tp: self.tp,
            line: self.line,
            startcol: self.startcol,
            endcol: self.endcol,
        }
    }
}

/// The scanning position of a lexer.
#[derive(Clone, Copy)]
pub struct LexPos {
    pub idx: usize,
    pub current: u8,
    pub len: usize,
    pub line: usize,
    pub col: usize,
}

/// Scans `data`, recognising the words of `kwds` as keywords.
pub struct Lexer {
    pub idx: usize,
    pub current: u8,
    pub len: usize,
    pub line: usize,
    pub col: usize,
    pub data: Vec<u8>,
    pub kwds: Vec<String>,
}

/// The byte at `i`, or NUL past the end.
pub open spec fn byte_at(data: Seq<u8>, i: int) -> u8 {
    if 0 <= i < data.len() {
        data[i]
    } else {
        0
    }
}

/// A position that scanning can reach in `data`.
pub open spec fn pos_wf(data: Seq<u8>, p: LexPos) -> bool {
    &&& data.len() + 3 <= usize::MAX
    &&& p.idx <= data.len() + 1
    &&& p.line <= p.idx
    &&& p.col <= p.idx
    &&& p.current == byte_at(data, p.idx as int)
    &&& (p.len == data.len() || (data.len() == 0 && p.len == 1 && p.idx >= 1))
    &&& (data.len() == 0 && p.len == 0 ==> p.idx == 0)
}

/// One step forward; leaving a line break starts a new line.
pub open spec fn adv(data: Seq<u8>, p: LexPos) -> LexPos {
    let idx = (p.idx + 1) as usize;
    if idx >= p.len {
        LexPos { idx, current: 0, len: p.len, line: p.line, col: (p.col + 1) as usize }
    } else if p.current == 10 || p.current == 13 {
        LexPos { idx, current: data[idx as int], len: p.len, line: (p.line + 1) as usize, col: 0 }
    } else {
        LexPos { idx, current: data[idx as int], len: p.len, line: p.line, col: (p.col + 1) as usize }
    }
}

/// The three kinds of runs that make up multi-character tokens.
#[derive(Clone, Copy, PartialEq, Eq, Structural)]
pub enum RunKind {
    Number,
    Word,
    Text,
}

pub open spec fn in_run(kind: RunKind, b: u8) -> bool {
    match kind {
        RunKind::Number => is_numeric_byte(b) || b == 95,
        RunKind::Word => is_alphanumeric_byte(b) || b == 95,
        RunKind::Text => is_alphanumeric_byte(b) && b != 34,
    }
}

/// Scans a run: each run character is taken, and a `.` right after one is
/// taken too. Returns the position after the run, the text so far, and the
/// column and line of the last run character (`end`, `line` when none).
pub open spec fn scan(
    data: Seq<u8>,
    kind: RunKind,
    p: LexPos,
    acc: Seq<char>,
    end: usize,
    line: usize,
) -> (LexPos, Seq<char>, usize, usize)
    decreases data.len() + 2 - p.idx,
{
    if pos_wf(data, p) && in_run(kind, p.current) {
        let acc1 = acc.push(byte_char(p.current));
        let p1 = adv(data, p);
        if p1.current == 46 {
            scan(data, kind, adv(data, p1), acc1.push('.'), p.col, p.line)
        } else {
            scan(data, kind, p1, acc1, p.col, p.line)
        }
    } else {
        (p, acc, end, line)
    }
}

pub open spec fn skip_ws(data: Seq<u8>, p: LexPos) -> LexPos
    decreases data.len() + 2 - p.idx,
{
    if pos_wf(data, p) && is_whitespace_byte(p.current) {
        skip_ws(data, adv(data, p))
    } else {
        p
    }
}

pub open spec fn skip_comment(data: Seq<u8>, p: LexPos) -> LexPos
    decreases data.len() + 2 - p.idx,
{
    if pos_wf(data, p) && p.current != 10 && p.current != 0 {
        skip_comment(data, adv(data, p))
    } else {
        p
    }
}

pub open spec fn is_keyword(kwds: Seq<Seq<char>>, w: Seq<char>) -> bool {
    exists|i: int| 0 <= i < kwds.len() && kwds[i] == w
}

pub open spec fn char_token(p: LexPos, tp: TokenType) -> SToken {
    SToken {
        data: seq![byte_char(p.current)],
        tp,
        line: p.line,
        startcol: p.col,
        endcol: (p.col + 1) as usize,
    }
}

/// The kind of single-character token a byte makes, if any.
pub open spec fn single_kind(b: u8) -> Option<TokenType> {
    if b == 43 {
        Some(TokenType::Plus)
    } else if b == 42 {
        Some(TokenType::Asterisk)
    } else if b == 47 {
        Some(TokenType::Slash)
    } else if b == 45 {
        Some(TokenType::Hyphen)
    } else if b == 61 {
        Some(TokenType::Equals)
    } else if b == 40 {
        Some(TokenType::LParen)
    } else if b == 41 {
        Some(TokenType::RParen)
    } else if b == 123 {
        Some(TokenType::LCurly)
    } else if b == 125 {
        Some(TokenType::RCurly)
    } else if b == 44 {
        Some(TokenType::Comma)
    } else if b == 91 {
        Some(TokenType::LSquare)
    } else if b == 93 {
        Some(TokenType::RSquare)
    } else if b == 58 {
        Some(TokenType::Colon)
    } else {
        None
    }
}

/// The next token from position `p` and the position after it; `None` at
/// the end of the text (or at a NUL byte).
pub open spec fn spec_next(data: Seq<u8>, kwds: Seq<Seq<char>>, p: LexPos) -> (LexPos, Option<SToken>)
    decreases data.len() + 2 - p.idx,
{
    if !pos_wf(data, p) {
        (p, None)
    } else {
        let c = p.current;
        if is_ascii_digit_byte(c) {
            let (p2, s, end, line) = scan(data, RunKind::Number, p, seq![], p.col, p.line);
            (
                p2,
                Some(
                    SToken {
                        data: s,
                        tp: TokenType::Decimal,
                        line,
                        startcol: p.col,
                        endcol: (end + 1) as usize,
                    },
                ),
            )
        } else if is_alphabetic_byte(c) {
            let (p2, s, end, line) = scan(data, RunKind::Word, p, seq![], p.col, p.line);
            let tp = if is_keyword(kwds, s) {
                TokenType::Keyword
            } else {
                TokenType::Identifier
            };
            (p2, Some(SToken { data: s, tp, line, startcol: p.col, endcol: (end + 1) as usize }))
        } else if c == 34 {
            let (p2, s, end, line) = scan(data, RunKind::Text, adv(data, p), seq![], p.col, p.line);
            (
                adv(data, p2),
                Some(
                    SToken {
                        data: s,
                        tp: TokenType::String,
                        line,
                        startcol: p.col,
                        endcol: (end + 2) as usize,
                    },
                ),
            )
        } else if c == 10 {
            (adv(data, p), Some(char_token(p, TokenType::Newline)))
        } else if c == 35 {
            proof {
                lemma_adv_wf(data, p);
                lemma_skip_comment(data, adv(data, p));
            }
            spec_next(data, kwds, skip_comment(data, adv(data, p)))
        } else if is_whitespace_byte(c) {
            proof {
                lemma_adv_wf(data, p);
                lemma_skip_ws(data, adv(data, p));
            }
            spec_next(data, kwds, skip_ws(data, adv(data, p)))
        } else if single_kind(c) is Some {
            (adv(data, p), Some(char_token(p, single_kind(c).unwrap())))
        } else if c == 0 {
            if p.len == 0 {
                let q = adv(data, p);
                (LexPos { len: 1, ..q }, Some(char_token(p, TokenType::Eof)))
            } else {
                (p, None)
            }
        } else {
            (adv(data, p), Some(char_token(p, TokenType::Unknown)))
        }
    }
}

/// All tokens from position `p` on.
pub open spec fn spec_tokens(data: Seq<u8>, kwds: Seq<Seq<char>>, p: LexPos) -> Seq<SToken>
    decreases data.len() + 2 - p.idx,
{
    let (q, t) = spec_next(data, kwds, p);
    if t is Some && p.idx < q.idx && pos_wf(data, q) {
        seq![t.unwrap()].add(spec_tokens(data, kwds, q))
    } else {
        seq![]
    }
}

pub open spec fn kw_view(kwds: Seq<String>) -> Seq<Seq<char>> {
    kwds.map_values(|s: String| s@)
}

impl Lexer {
    pub open spec fn pos(&self) -> LexPos {
        LexPos {
            idx: self.idx,
            current: self.current,
            len: self.len,
            line: self.line,
            col: self.col,
        }
    }

    pub open spec fn wf(&self) -> bool {
        pos_wf(self.data@, self.pos())
    }

    /// The tokens that this lexer still yields.
    pub open spec fn remaining(&self) -> Seq<SToken> {
        spec_tokens(self.data@, kw_view(self.kwds@), self.pos())
    }
}

// ---------------------------------------------------------------------------
// Facts about scanning.
pub proof fn lemma_skip_ws(data: Seq<u8>, p: LexPos)
    requires
        pos_wf(data, p),
    ensures
        pos_wf(data, skip_ws(data, p)),
        skip_ws(data, p).idx >= p.idx,
        !is_whitespace_byte(skip_ws(data, p).current),
    decreases data.len() + 2 - p.idx,
{
    if is_whitespace_byte(p.current) {
        lemma_adv_wf(data, p);
        lemma_skip_ws(data, adv(data, p));
    }
}

pub proof fn lemma_skip_comment(data: Seq<u8>, p: LexPos)
    requires
        pos_wf(data, p),
    ensures
        pos_wf(data, skip_comment(data, p)),
        skip_comment(data, p).idx >= p.idx,
    decreases data.len() + 2 - p.idx,
{
    if p.current != 10 && p.current != 0 {
        lemma_adv_wf(data, p);
        lemma_skip_comment(data, adv(data, p));
    }
}
pub proof fn lemma_adv_wf(data: Seq<u8>, p: LexPos)
    requires
        pos_wf(data, p),
        p.idx <= data.len(),
        data.len() > 0,
    ensures
        pos_wf(data, adv(data, p)),
        adv(data, p).idx == p.idx + 1,
{
}

pub proof fn lemma_scan_wf(data: Seq<u8>, kind: RunKind, p: LexPos, acc: Seq<char>, end: usize, line: usize)
    requires
        pos_wf(data, p),
    ensures
        pos_wf(data, scan(data, kind, p, acc, end, line).0),
        scan(data, kind, p, acc, end, line).0.idx >= p.idx,
        p.idx <= data.len() ==> scan(data, kind, p, acc, end, line).0.idx <= data.len(),
        in_run(kind, p.current) ==> scan(data, kind, p, acc, end, line).0.idx > p.idx,
        end <= data.len() + 1 ==> scan(data, kind, p, acc, end, line).2 <= data.len() + 1,
        line <= data.len() + 1 ==> scan(data, kind, p, acc, end, line).3 <= data.len() + 1,
    decreases data.len() + 2 - p.idx,
{
    if in_run(kind, p.current) {
        let p1 = adv(data, p);
        lemma_adv_wf(data, p);
        let acc1 = acc.push(byte_char(p.current));
        if p1.current == 46 {
            lemma_adv_wf(data, p1);
            lemma_scan_wf(data, kind, adv(data, p1), acc1.push('.'), p.col, p.line);
        } else {
            lemma_scan_wf(data, kind, p1, acc1, p.col, p.line);
        }
    }
}

pub proof fn lemma_next(data: Seq<u8>, kwds: Seq<Seq<char>>, p: LexPos)
    requires
        pos_wf(data, p),
    ensures
        pos_wf(data, spec_next(data, kwds, p).0),
        spec_next(data, kwds, p).1 is Some ==> spec_next(data, kwds, p).0.idx > p.idx,
    decreases data.len() + 2 - p.idx,
{
    let c = p.current;
    if is_ascii_digit_byte(c) {
        lemma_scan_wf(data, RunKind::Number, p, seq![], p.col, p.line);
    } else if is_alphabetic_byte(c) {
        lemma_scan_wf(data, RunKind::Word, p, seq![], p.col, p.line);
    } else if c == 34 {
        lemma_adv_wf(data, p);
        lemma_scan_wf(data, RunKind::Text, adv(data, p), seq![], p.col, p.line);
        lemma_adv_wf(data, scan(data, RunKind::Text, adv(data, p), seq![], p.col, p.line).0);
    } else if c == 35 {
        lemma_adv_wf(data, p);
        lemma_skip_comment(data, adv(data, p));
        lemma_next(data, kwds, skip_comment(data, adv(data, p)));
    } else if is_whitespace_byte(c) {
        lemma_adv_wf(data, p);
        lemma_skip_ws(data, adv(data, p));
        lemma_next(data, kwds, skip_ws(data, adv(data, p)));
    } else if c == 0 {
    } else {
        lemma_adv_wf(data, p);
    }
}

pub open spec fn opt_view(t: Option<Token>) -> Option<SToken> {
    match t {
        Some(t) => Some(t@),
        None => None,
    }
}

pub open spec fn tokens_view(v: Seq<Token>) -> Seq<SToken> {
    v.map_values(|t: Token| t@)
}

// ---------------------------------------------------------------------------
// Scanning, executed.

/// A lexer at the start of `data`.
/// Where lexing starts: before the first byte, on line 0.
pub open spec fn lex_start(data: Seq<u8>) -> LexPos {
    LexPos {
        idx: 0,
        current: if data.len() > 0 {
            data[0]
        } else {
            0
        },
        len: data.len() as usize,
        line: 0,
        col: 0,
    }
}

pub fn new(data: Vec<u8>, kwds: Vec<String>) -> (l: Lexer)
    requires
        data.len() + 3 <= usize::MAX,
    ensures
        l.wf(),
        l.data@ == data@,
        l.kwds@ == kwds@,
        l.pos() == lex_start(data@),
{
    let current = if data.len() > 0 {
        data[0]
    } else {
        0
    };
    let len = data.len();
    Lexer { idx: 0, current, len, line: 0, col: 0, data, kwds }
}

fn advance(lexer: &mut Lexer)
    requires
        old(lexer).wf(),
    ensures
        final(lexer).pos() == adv(old(lexer).data@, old(lexer).pos()),
        final(lexer).data@ == old(lexer).data@,
        final(lexer).kwds@ == old(lexer).kwds@,
        old(lexer).idx <= old(lexer).data.len() && old(lexer).data.len() > 0 ==> final(lexer).wf(),
{
    proof {
        if lexer.idx <= lexer.data.len() && lexer.data.len() > 0 {
            lemma_adv_wf(lexer.data@, lexer.pos());
        }
    }
    lexer.idx = lexer.idx + 1;
    lexer.col = lexer.col + 1;
    if lexer.idx >= lexer.len {
        lexer.current = 0;
        return ;
    }
    if lexer.current == 10 || lexer.current == 13 {
        lexer.line = lexer.line + 1;
        lexer.col = 0;
    }
    lexer.current = lexer.data[lexer.idx];
}

/// The one-character token `val` of kind `tp` at the current position; the
/// lexer moves past it.
pub fn add_char_token(lexer: &mut Lexer, val: char, tp: TokenType) -> (t: Token)
    requires
        old(lexer).wf(),
    ensures
        t@ == (SToken {
            data: seq![val],
            tp,
            line: old(lexer).line,
            startcol: old(lexer).col,
            endcol: (old(lexer).col + 1) as usize,
        }),
        final(lexer).pos() == adv(old(lexer).data@, old(lexer).pos()),
        final(lexer).data@ == old(lexer).data@,
        final(lexer).kwds@ == old(lexer).kwds@,
        old(lexer).idx <= old(lexer).data.len() && old(lexer).data.len() > 0 ==> final(lexer).wf(),
{
    let mut data = String::new();
    push_char(&mut data, val);
    let res = Token {
        data,
        tp,
        line: lexer.line,
        startcol: lexer.col,
        endcol: lexer.col + 1,
    };
    advance(lexer);
    res
}

fn run_char(kind: RunKind, b: u8) -> (r: bool)
    ensures
        r == in_run(kind, b),
{
    match kind {
        RunKind::Number => numeric(b) || b == 95,
        RunKind::Word => alphanumeric(b) || b == 95,
        RunKind::Text => alphanumeric(b) && b != 34,
    }
}

/// Scans a run of `kind` (see `scan`): the text, and the column and line of
/// its last character (`end`, `line` when the run is empty).
fn scan_run(lexer: &mut Lexer, kind: RunKind, end: usize, line: usize) -> (r: (String, usize, usize))
    requires
        old(lexer).wf(),
        end <= old(lexer).data.len() + 1,
        line <= old(lexer).data.len() + 1,
    ensures
        scan(old(lexer).data@, kind, old(lexer).pos(), seq![], end, line) == (
            final(lexer).pos(),
            r.0@,
            r.1,
            r.2,
        ),
        final(lexer).data@ == old(lexer).data@,
        final(lexer).kwds@ == old(lexer).kwds@,
        final(lexer).wf(),
{
    let ghost data = lexer.data@;
    let ghost p0 = lexer.pos();
    let ghost end0 = end;
    let ghost line0 = line;
    let mut acc = String::new();
    let mut end = end;
    let mut line = line;
    while run_char(kind, lexer.current)
        invariant
            lexer.wf(),
            lexer.data@ == data,
            lexer.kwds@ == old(lexer).kwds@,
            end <= data.len() + 1,
            line <= data.len() + 1,
            scan(data, kind, lexer.pos(), acc@, end, line) == scan(data, kind, p0, seq![], end0, line0),
        decreases data.len() + 2 - lexer.idx,
    {
        let c = char_of_byte(lexer.current);
        push_char(&mut acc, c);
        end = lexer.col;
        line = lexer.line;
        advance(lexer);
        if lexer.current == 46 {
            push_char(&mut acc, '.');
            advance(lexer);
        }
    }
    (acc, end, line)
}

fn make_decimal(lexer: &mut Lexer) -> (t: Token)
    requires
        old(lexer).wf(),
    ensures
        ({
            let (p2, s, end, line) = scan(
                old(lexer).data@,
                RunKind::Number,
                old(lexer).pos(),
                seq![],
                old(lexer).col,
                old(lexer).line,
            );
            &&& final(lexer).pos() == p2
            &&& t@ == (SToken {
                data: s,
                tp: TokenType::Decimal,
                line,
                startcol: old(lexer).col,
                endcol: (end + 1) as usize,
            })
        }),
        final(lexer).data@ == old(lexer).data@,
        final(lexer).kwds@ == old(lexer).kwds@,
        final(lexer).wf(),
{
    proof {
        lemma_scan_wf(lexer.data@, RunKind::Number, lexer.pos(), seq![], lexer.col, lexer.line);
    }
    let start = lexer.col;
    let (data, end, line) = scan_run(lexer, RunKind::Number, lexer.col, lexer.line);
    Token { data, tp: TokenType::Decimal, line, startcol: start, endcol: end + 1 }
}

fn contains_keyword(kwds: &Vec<String>, w: &String) -> (r: bool)
    ensures
        r == is_keyword(kw_view(kwds@), w@),
{
    let mut i: usize = 0;
    while i < kwds.len()
        invariant
            i <= kwds.len(),
            forall|j: int| 0 <= j < i ==> kw_view(kwds@)[j] != w@,
        decreases kwds.len() - i,
    {
        if kwds[i] == *w {
            assert(kw_view(kwds@)[i as int] == w@);
            return true;
        }
        assert(kw_view(kwds@)[i as int] == kwds@[i as int]@);
        i = i + 1;
    }
    false
}

fn make_identifier(lexer: &mut Lexer) -> (t: Token)
    requires
        old(lexer).wf(),
    ensures
        ({
            let (p2, s, end, line) = scan(
                old(lexer).data@,
                RunKind::Word,
                old(lexer).pos(),
                seq![],
                old(lexer).col,
                old(lexer).line,
            );
            &&& final(lexer).pos() == p2
            &&& t@ == (SToken {
                data: s,
                tp: if is_keyword(kw_view(old(lexer).kwds@), s) {
                    TokenType::Keyword
                } else {
                    TokenType::Identifier
                },
                line,
                startcol: old(lexer).col,
                endcol: (end + 1) as usize,
            })
        }),
        final(lexer).data@ == old(lexer).data@,
        final(lexer).kwds@ == old(lexer).kwds@,
        final(lexer).wf(),
{
    proof {
        lemma_scan_wf(lexer.data@, RunKind::Word, lexer.pos(), seq![], lexer.col, lexer.line);
    }
    let start = lexer.col;
    let (data, end, line) = scan_run(lexer, RunKind::Word, lexer.col, lexer.line);
    if contains_keyword(&lexer.kwds, &data) {
        return Token { data, tp: TokenType::Keyword, line, startcol: start, endcol: end + 1 };
    }
    Token { data, tp: TokenType::Identifier, line, startcol: start, endcol: end + 1 }
}

fn make_string(lexer: &mut Lexer) -> (t: Token)
    requires
        old(lexer).wf(),
        old(lexer).current == 34,
    ensures
        ({
            let p = old(lexer).pos();
            let d = old(lexer).data@;
            let (p2, s, end, line) = scan(d, RunKind::Text, adv(d, p), seq![], p.col, p.line);
            &&& final(lexer).pos() == adv(d, p2)
            &&& t@ == (SToken {
                data: s,
                tp: TokenType::String,
                line,
                startcol: p.col,
                endcol: (end + 2) as usize,
            })
        }),
        final(lexer).data@ == old(lexer).data@,
        final(lexer).kwds@ == old(lexer).kwds@,
        final(lexer).wf(),
{
    let start = lexer.col;
    let line0 = lexer.line;
    advance(lexer);
    proof {
        lemma_scan_wf(lexer.data@, RunKind::Text, lexer.pos(), seq![], start, line0);
    }
    let (data, end, line) = scan_run(lexer, RunKind::Text, start, line0);
    advance(lexer);
    Token { data, tp: TokenType::String, line, startcol: start, endcol: end + 2 }
}

fn single_token_kind(b: u8) -> (r: Option<TokenType>)
    ensures
        r == single_kind(b),
{
    if b == 43 {
        Some(TokenType::Plus)
    } else if b == 42 {
        Some(TokenType::Asterisk)
    } else if b == 47 {
        Some(TokenType::Slash)
    } else if b == 45 {
        Some(TokenType::Hyphen)
    } else if b == 61 {
        Some(TokenType::Equals)
    } else if b == 40 {
        Some(TokenType::LParen)
    } else if b == 41 {
        Some(TokenType::RParen)
    } else if b == 123 {
        Some(TokenType::LCurly)
    } else if b == 125 {
        Some(TokenType::RCurly)
    } else if b == 44 {
        Some(TokenType::Comma)
    } else if b == 91 {
        Some(TokenType::LSquare)
    } else if b == 93 {
        Some(TokenType::RSquare)
    } else if b == 58 {
        Some(TokenType::Colon)
    } else {
        None
    }
}

impl Lexer {
    /// The next token, or `None` at the end of the text (see `spec_next`).
    pub fn next(&mut self) -> (r: Option<Token>)
        requires
            old(self).wf(),
        ensures
            spec_next(old(self).data@, kw_view(old(self).kwds@), old(self).pos()) == (
                final(self).pos(),
                opt_view(r),
            ),
            final(self).data@ == old(self).data@,
            final(self).kwds@ == old(self).kwds@,
            final(self).wf(),
    {
        let ghost data = self.data@;
        let ghost kw = kw_view(self.kwds@);
        let ghost p0 = self.pos();
        assert(p0 == old(self).pos());
        assert(data == old(self).data@);
        loop
            invariant
                p0 == old(self).pos(),
                data == old(self).data@,
                self.wf(),
                self.data@ == data,
                self.kwds@ == old(self).kwds@,
                kw == kw_view(self.kwds@),
                spec_next(data, kw, self.pos()) == spec_next(data, kw, p0),
            decreases data.len() + 2 - self.idx,
        {
            let c = self.current;
            let ghost pi = self.pos();
            if ascii_digit(c) {
                let t = make_decimal(self);
                assert(spec_next(data, kw, pi) == (self.pos(), Some(t@)));
                return Some(t);
            } else if alphabetic(c) {
                return Some(make_identifier(self));
            } else if c == 34 {
                return Some(make_string(self));
            } else if c == 10 {
                return Some(add_char_token(self, '\n', TokenType::Newline));
            } else if c == 35 {
                advance(self);
                let ghost pa = self.pos();
                while self.current != 10 && self.current != 0
                    invariant
                        self.wf(),
                        self.data@ == data,
                        self.kwds@ == old(self).kwds@,
                        skip_comment(data, self.pos()) == skip_comment(data, pa),
                        self.idx >= pa.idx,
                    decreases data.len() + 2 - self.idx,
                {
                    advance(self);
                }
                assert(skip_comment(data, self.pos()) == self.pos());
            } else if whitespace(c) {
                advance(self);
                let ghost pa = self.pos();
                while whitespace(self.current)
                    invariant
                        self.wf(),
                        self.data@ == data,
                        self.kwds@ == old(self).kwds@,
                        skip_ws(data, self.pos()) == skip_ws(data, pa),
                        self.idx >= pa.idx,
                    decreases data.len() + 2 - self.idx,
                {
                    advance(self);
                }
                assert(skip_ws(data, self.pos()) == self.pos());
            } else if let Some(tp) = single_token_kind(c) {
                let ch = char_of_byte(c);
                return Some(add_char_token(self, ch, tp));
            } else if c == 0 {
                if self.len == 0 {
                    let res = Token {
                        data: {
                            let mut s = String::new();
                            push_char(&mut s, char_of_byte(c));
                            s
                        },
                        tp: TokenType::Eof,
                        line: self.line,
                        startcol: self.col,
                        endcol: self.col + 1,
                    };
                    self.idx = self.idx + 1;
                    self.col = self.col + 1;
                    self.len = 1;
                    return Some(res);
                }
                return None;
            } else {
                let ch = char_of_byte(c);
                return Some(add_char_token(self, ch, TokenType::Unknown));
            }
        }
    }

    /// All remaining tokens, in order.
    pub fn tokenize(&mut self) -> (v: Vec<Token>)
        requires
            old(self).wf(),
        ensures
            tokens_view(v@) == old(self).remaining(),
            final(self).data@ == old(self).data@,
            final(self).kwds@ == old(self).kwds@,
    {
        let mut v: Vec<Token> = Vec::new();
        loop
            invariant
                self.wf(),
                self.data@ == old(self).data@,
                self.kwds@ == old(self).kwds@,
                tokens_view(v@) + self.remaining() == old(self).remaining(),
            decreases self.data@.len() + 2 - self.idx,
        {
            proof {
                lemma_next(self.data@, kw_view(self.kwds@), self.pos());
            }
            let ghost before = self.remaining();
            match self.next() {
                Some(t) => {
                    let ghost vs = tokens_view(v@);
                    v.push(t);
                    assert(tokens_view(v@) == vs.push(t@));
                    assert(before == seq![t@] + self.remaining());
                    assert(tokens_view(v@) + self.remaining() == vs + before);
                },
                None => {
                    assert(before == Seq::<SToken>::empty());
                    assert(tokens_view(v@) + before == tokens_view(v@));
                    return v;
                },
            }
        }
    }
}


// ---------------------------------------------------------------------------
// Positions follow the text.

/// How many line feeds `data` holds before index `i`.
pub open spec fn line_feeds_before(data: Seq<u8>, i: int) -> nat
    decreases i,
{
    if i <= 0 {
        0
    } else {
        line_feeds_before(data, i - 1) + if data[i - 1] == 10 {
            1nat
        } else {
            0nat
        }
    }
}

/// Where the line holding index `i` starts: just after the last line feed
/// before `i`, or 0.
pub open spec fn line_start(data: Seq<u8>, i: int) -> int
    decreases i,
{
    if i <= 0 {
        0
    } else if data[i - 1] == 10 {
        i
    } else {
        line_start(data, i - 1)
    }
}

proof fn lemma_line_feeds_bound(data: Seq<u8>, i: int)
    ensures
        line_feeds_before(data, i) <= if i < 0 {
            0
        } else {
            i
        },
        0 <= line_start(data, i),
    decreases i,
{
    if i > 0 {
        lemma_line_feeds_bound(data, i - 1);
    }
}

/// `p` stands at index `p.idx` of `data`, on the line and at the column of
/// that index.
pub open spec fn at_text_position(data: Seq<u8>, p: LexPos) -> bool {
    &&& p.current == byte_at(data, p.idx as int)
    &&& p.line == line_feeds_before(data, p.idx as int)
    &&& p.col == p.idx - line_start(data, p.idx as int)
}

/// In a text without carriage returns, a step forward keeps the position on
/// the line and at the column of its index; past the last byte the column
/// moves on and the line stays.
pub proof fn law_advance_follows_text(data: Seq<u8>, p: LexPos)
    requires
        forall|j: int| 0 <= j < data.len() ==> data[j] != 13,
        p.len == data.len(),
        p.idx < p.len,
        at_text_position(data, p),
    ensures
        adv(data, p).idx == p.idx + 1,
        adv(data, p).idx < p.len ==> at_text_position(data, adv(data, p)),
        adv(data, p).idx == p.len ==> adv(data, p).current == 0 && adv(data, p).col == p.col + 1
            && adv(data, p).line == p.line,
{
    let i = p.idx as int;
    lemma_line_feeds_bound(data, i);
    assert(line_feeds_before(data, i + 1) == line_feeds_before(data, i) + if data[i] == 10 {
        1nat
    } else {
        0nat
    });
    assert(line_start(data, i + 1) == if data[i] == 10 {
        i + 1
    } else {
        line_start(data, i)
    });
}


// ---------------------------------------------------------------------------
// Words are whole.

/// An ASCII letter, an ASCII digit or `_`.
pub open spec fn ascii_word_byte(b: u8) -> bool {
    (48 <= b <= 57) || (65 <= b <= 90) || (97 <= b <= 122) || b == 95
}

/// A byte that ends a word: neither alphanumeric, nor `_`, nor `.`.
pub open spec fn ends_word(b: u8) -> bool {
    !is_alphanumeric_byte(b) && b != 95 && b != 46
}

/// The characters of `data[from..from + n]`.
pub open spec fn bytes_text(data: Seq<u8>, from: int, n: int) -> Seq<char> {
    data.subrange(from, from + n).map_values(|b: u8| byte_char(b))
}

proof fn lemma_scan_word(data: Seq<u8>, p: LexPos, acc: Seq<char>, end: usize, line: usize, n: nat)
    requires
        pos_wf(data, p),
        p.len == data.len(),
        p.idx + n <= data.len(),
        forall|j: int| p.idx <= j < p.idx + n ==> ascii_word_byte(#[trigger] data[j]),
        ends_word(byte_at(data, p.idx + n)),
    ensures
        scan(data, RunKind::Word, p, acc, end, line).1 == acc + bytes_text(data, p.idx as int, n as int),
        scan(data, RunKind::Word, p, acc, end, line).0.idx == p.idx + n,
    decreases n,
{
    let i = p.idx as int;
    if n == 0 {
        assert(bytes_text(data, i, 0) =~= Seq::<char>::empty());
        assert(acc + Seq::<char>::empty() =~= acc);
    } else {
        assert(ascii_word_byte(data[i]));
        lemma_adv_wf(data, p);
        let p1 = adv(data, p);
        assert(p1.current == byte_at(data, i + 1));
        if n > 1 {
            assert(ascii_word_byte(data[i + 1]));
        }
        assert(p1.current != 46);
        let acc1 = acc.push(byte_char(p.current));
        lemma_scan_word(data, p1, acc1, p.col, p.line, (n - 1) as nat);
        assert(acc1 + bytes_text(data, i + 1, n - 1) =~= acc + bytes_text(data, i, n as int));
    }
}

/// A word is lexed whole: standing at an ASCII letter that starts a run of
/// ASCII letters, digits and `_` which a byte that is not alphanumeric, `_`
/// or `.` ends, the next token is a name (or keyword) whose text is the
/// whole run, digits included, and the lexer moves past the run.
pub proof fn law_word_token(data: Seq<u8>, kwds: Seq<Seq<char>>, p: LexPos, n: nat)
    requires
        pos_wf(data, p),
        n >= 1,
        p.idx + n <= data.len(),
        (65 <= data[p.idx as int] <= 90) || (97 <= data[p.idx as int] <= 122),
        forall|j: int| p.idx <= j < p.idx + n ==> ascii_word_byte(#[trigger] data[j]),
        ends_word(byte_at(data, p.idx + n)),
    ensures
        spec_next(data, kwds, p).1 matches Some(t) && t.data == bytes_text(data, p.idx as int, n as int) && (t.tp
            == TokenType::Identifier || t.tp == TokenType::Keyword),
        spec_next(data, kwds, p).0.idx == p.idx + n,
{
    lemma_scan_word(data, p, seq![], p.col, p.line, n);
    assert(seq![] + bytes_text(data, p.idx as int, n as int) =~= bytes_text(data, p.idx as int, n as int));
}

} // verus!
