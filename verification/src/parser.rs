//! Builds the syntax tree from the tokens.
//!
//! The parser keeps an index `idx` into the tokens; the current token is the
//! one at `idx - 1`, and past the last token it is an end-of-file token.
//! `spec_*` functions below state what each parsing routine returns as a
//! function of the tokens and the index it starts from.
use vstd::prelude::*;
use crate::errors::{ErrorDetail, ErrorType, ParseError};
use crate::lexer::{SToken, Token, TokenType, tokens_view};
use crate::text::push_char;

verus! {

#[derive(Clone, Copy, PartialEq, Eq, Structural, Debug)]
pub struct Position {
    pub startcol: usize,
    pub endcol: usize,
    pub line: usize,
}

impl Position {
    pub fn create_from_parts(startcol: usize, endcol: usize, line: usize) -> (p: Position)
        ensures
            p == (Position { startcol, endcol, line }),
    {
        Position { startcol, endcol, line }
    }

    /// The position with every coordinate 0.
    pub fn zero() -> (p: Position)
        ensures
            p == (Position { startcol: 0, endcol: 0, line: 0 }),
    {
        Position { startcol: 0, endcol: 0, line: 0 }
    }
}

#[derive(Clone, Copy, PartialEq, Eq, Structural, Debug)]
pub enum OpType {
    Add,
    Sub,
    Mul,
    Div,
    Neg,
}

#[derive(Clone, Copy, PartialEq, Eq, Structural, Debug)]
pub enum NodeType {
    Decimal,
    Binary,
    StoreNode,
    Identifier,
    Function,
    Call,
    Return,
    Unary,
    String,
    List,
    Dict,
    Class,
}

#[derive(Clone, Copy, PartialEq, Eq, Structural, Debug)]
pub enum Precedence {
    Lowest,
    Sum,
    Product,
}

pub open spec fn prec_num(p: Precedence) -> int {
    match p {
        Precedence::Lowest => 0,
        Precedence::Sum => 1,
        Precedence::Product => 2,
    }
}

#[derive(Debug)]
pub struct DecimalNode {
    pub value: String,
}

#[derive(Debug)]
pub struct BinaryNode {
    pub left: Node,
    pub right: Node,
    pub op: OpType,
}

#[derive(Debug)]
pub struct StoreNode {
    pub name: String,
    pub expr: Node,
}

#[derive(Debug)]
pub struct IdentifierNode {
    pub name: String,
}

#[derive(Debug)]
pub struct FunctionNode {
    pub name: String,
    pub args: Vec<String>,
    pub code: Vec<Node>,
}

#[derive(Debug)]
pub struct CallNode {
    pub ident: Node,
    pub args: Vec<Node>,
}

#[derive(Debug)]
pub struct ReturnNode {
    pub expr: Node,
}

#[derive(Debug)]
pub struct UnaryNode {
    pub expr: Node,
    pub op: OpType,
}

#[derive(Debug)]
pub struct StringNode {
    pub value: String,
}

#[derive(Debug)]
pub struct ListNode {
    pub values: Vec<Node>,
}

/// A dictionary display: `keys[i]: values[i]`.
#[derive(Debug)]
pub struct DictNode {
    pub keys: Vec<Node>,
    pub values: Vec<Node>,
}

#[derive(Debug)]
pub struct ClassNode {
    pub name: String,
    pub methods: Vec<Node>,
}

/// What a node holds, by kind.
#[derive(Debug)]
pub enum NodeData {
    Decimal(DecimalNode),
    Binary(Box<BinaryNode>),
    StoreNode(Box<StoreNode>),
    Identifier(IdentifierNode),
    Function(FunctionNode),
    Call(Box<CallNode>),
    Return(Box<ReturnNode>),
    Unary(Box<UnaryNode>),
    String(StringNode),
    List(ListNode),
    Dict(DictNode),
    Class(ClassNode),
}

/// A syntax tree node with the source range it covers.
#[derive(Debug)]
pub struct Node {
    pub start: Position,
    pub end: Position,
    pub data: NodeData,
}

impl Node {
    pub fn new(start: Position, end: Position, data: NodeData) -> (n: Node)
        ensures
            n.start == start,
            n.end == end,
            n.data == data,
    {
        Node { start, end, data }
    }

    pub open spec fn spec_tp(&self) -> NodeType {
        match self.data {
            NodeData::Decimal(_) => NodeType::Decimal,
            NodeData::Binary(_) => NodeType::Binary,
            NodeData::StoreNode(_) => NodeType::StoreNode,
            NodeData::Identifier(_) => NodeType::Identifier,
            NodeData::Function(_) => NodeType::Function,
            NodeData::Call(_) => NodeType::Call,
            NodeData::Return(_) => NodeType::Return,
            NodeData::Unary(_) => NodeType::Unary,
            NodeData::String(_) => NodeType::String,
            NodeData::List(_) => NodeType::List,
            NodeData::Dict(_) => NodeType::Dict,
            NodeData::Class(_) => NodeType::Class,
        }
    }

    /// The kind of the node.
    pub fn tp(&self) -> (t: NodeType)
        ensures
            t == self.spec_tp(),
    {
        match self.data {
            NodeData::Decimal(_) => NodeType::Decimal,
            NodeData::Binary(_) => NodeType::Binary,
            NodeData::StoreNode(_) => NodeType::StoreNode,
            NodeData::Identifier(_) => NodeType::Identifier,
            NodeData::Function(_) => NodeType::Function,
            NodeData::Call(_) => NodeType::Call,
            NodeData::Return(_) => NodeType::Return,
            NodeData::Unary(_) => NodeType::Unary,
            NodeData::String(_) => NodeType::String,
            NodeData::List(_) => NodeType::List,
            NodeData::Dict(_) => NodeType::Dict,
            NodeData::Class(_) => NodeType::Class,
        }
    }
}

// ---------------------------------------------------------------------------
// The mathematical syntax tree.
pub struct SNode {
    pub start: Position,
    pub end: Position,
    pub kind: SKind,
}

pub enum SKind {
    Decimal(Seq<char>),
    Binary(Box<SNode>, Box<SNode>, OpType),
    Store(Seq<char>, Box<SNode>),
    Identifier(Seq<char>),
    Function(Seq<char>, Seq<Seq<char>>, Seq<SNode>),
    Call(Box<SNode>, Seq<SNode>),
    Return(Box<SNode>),
    Unary(Box<SNode>, OpType),
    Str(Seq<char>),
    List(Seq<SNode>),
    Dict(Seq<SNode>, Seq<SNode>),
    Class(Seq<char>, Seq<SNode>),
}

pub open spec fn strings_view(s: Seq<String>) -> Seq<Seq<char>> {
    s.map_values(|x: String| x@)
}

pub open spec fn nodes_view(s: Seq<Node>) -> Seq<SNode>
    decreases s,
{
    if s.len() == 0 {
        seq![]
    } else {
        nodes_view(s.drop_last()).push(node_view(s.last()))
    }
}

pub open spec fn node_view(n: Node) -> SNode
    decreases n,
{
    let kind = match n.data {
        NodeData::Decimal(d) => SKind::Decimal(d.value@),
        NodeData::Binary(b) => SKind::Binary(
            Box::new(node_view(b.left)),
            Box::new(node_view(b.right)),
            b.op,
        ),
        NodeData::StoreNode(s) => SKind::Store(s.name@, Box::new(node_view(s.expr))),
        NodeData::Identifier(i) => SKind::Identifier(i.name@),
        NodeData::Function(f) => SKind::Function(
            f.name@,
            strings_view(f.args@),
            nodes_view(f.code@),
        ),
        NodeData::Call(c) => SKind::Call(Box::new(node_view(c.ident)), nodes_view(c.args@)),
        NodeData::Return(r) => SKind::Return(Box::new(node_view(r.expr))),
        NodeData::Unary(u) => SKind::Unary(Box::new(node_view(u.expr)), u.op),
        NodeData::String(s) => SKind::Str(s.value@),
        NodeData::List(l) => SKind::List(nodes_view(l.values@)),
        NodeData::Dict(d) => SKind::Dict(nodes_view(d.keys@), nodes_view(d.values@)),
        NodeData::Class(c) => SKind::Class(c.name@, nodes_view(c.methods@)),
    };
    SNode { start: n.start, end: n.end, kind }
}

impl View for Node {
    type V = SNode;

    open spec fn view(&self) -> SNode {
        node_view(*self)
    }
}

pub proof fn lemma_nodes_view_len(s: Seq<Node>)
    ensures
        nodes_view(s).len() == s.len(),
        forall|i: int| 0 <= i < s.len() ==> #[trigger] nodes_view(s)[i] == node_view(s[i]),
    decreases s.len(),
{
    if s.len() > 0 {
        lemma_nodes_view_len(s.drop_last());
    }
}

pub proof fn lemma_nodes_view_push(s: Seq<Node>, n: Node)
    ensures
        nodes_view(s.push(n)) == nodes_view(s).push(node_view(n)),
{
    assert(s.push(n).drop_last() == s);
}


// ---------------------------------------------------------------------------
// What parsing returns.
pub open spec fn eof_token() -> SToken {
    SToken { data: seq!['\0'], tp: TokenType::Eof, line: 0, startcol: 0, endcol: 0 }
}

/// The token at `i`, or an end-of-file token past the end.
pub open spec fn tok(toks: Seq<SToken>, i: int) -> SToken {
    if 0 <= i < toks.len() {
        toks[i]
    } else {
        eof_token()
    }
}

/// The current token when the index is `i`.
pub open spec fn cur(toks: Seq<SToken>, i: int) -> SToken {
    tok(toks, i - 1)
}

pub open spec fn pos_of(t: SToken) -> Position {
    Position { startcol: t.startcol, endcol: t.endcol, line: t.line }
}

pub open spec fn here(toks: Seq<SToken>, i: int) -> Position {
    pos_of(cur(toks, i))
}

pub open spec fn perr(toks: Seq<SToken>, i: int, tp: ErrorType, detail: ErrorDetail) -> ParseError {
    ParseError { tp, detail, pos: here(toks, i) }
}

/// The error `expect(typ)` raises at `i`, if any.
pub open spec fn s_expect(toks: Seq<SToken>, i: int, typ: TokenType) -> Option<ParseError> {
    if cur(toks, i).tp != typ {
        Some(
            perr(
                toks,
                i,
                ErrorType::UnexpectedToken,
                ErrorDetail::Expected { expected: typ, got: cur(toks, i).tp },
            ),
        )
    } else {
        None
    }
}

/// The termination measure of parsing at index `i`.
pub open spec fn msr(len: int, i: int) -> int {
    if i <= len + 4 {
        len + 4 - i
    } else {
        0
    }
}

/// A bound on where parsing that starts at `i` can end.
pub open spec fn bound(len: int, i: int) -> int {
    3 * len + 10 - 2 * i
}

pub open spec fn skip_nl(toks: Seq<SToken>, i: int) -> int
    decreases toks.len() + 2 - i,
{
    if cur(toks, i).tp == TokenType::Newline && i <= toks.len() {
        skip_nl(toks, i + 1)
    } else {
        i
    }
}

pub open spec fn token_precedence(tp: TokenType) -> Precedence {
    match tp {
        TokenType::Plus | TokenType::Hyphen => Precedence::Sum,
        TokenType::Asterisk | TokenType::Slash => Precedence::Product,
        _ => Precedence::Lowest,
    }
}

pub open spec fn token_op(tp: TokenType) -> OpType {
    match tp {
        TokenType::Plus => OpType::Add,
        TokenType::Hyphen => OpType::Sub,
        TokenType::Asterisk => OpType::Mul,
        _ => OpType::Div,
    }
}

pub open spec fn is_atomic_tp(tp: TokenType) -> bool {
    ||| tp == TokenType::Decimal
    ||| tp == TokenType::Identifier
    ||| tp == TokenType::Hyphen
    ||| tp == TokenType::LParen
    ||| tp == TokenType::String
    ||| tp == TokenType::LCurly
}

pub open spec fn word_fn() -> Seq<char> {
    seq!['f', 'n']
}

pub open spec fn word_return() -> Seq<char> {
    seq!['r', 'e', 't', 'u', 'r', 'n']
}

pub open spec fn word_class() -> Seq<char> {
    seq!['c', 'l', 'a', 's', 's']
}

pub open spec fn leaf(toks: Seq<SToken>, i: int, kind: SKind) -> SNode {
    SNode { start: here(toks, i), end: here(toks, i), kind }
}

/// A statement sequence up to `}` or the end; `fn_only`: each statement must
/// start with the keyword `fn`. `acc`: the statements parsed before.
pub open spec fn spec_block(toks: Seq<SToken>, i: int, fn_only: bool, acc: Seq<SNode>) -> Result<
    (Seq<SNode>, int),
    ParseError,
>
    decreases msr(toks.len() as int, i), 7nat,
{
    let c = cur(toks, i);
    if !(1 <= i) {
        Ok((acc, i))
    } else if c.tp == TokenType::Eof || c.tp == TokenType::RCurly {
        Ok((acc, i))
    } else if fn_only && !(c.tp == TokenType::Keyword && c.data == word_fn()) {
        Err(perr(toks, i, ErrorType::UnexpectedToken, ErrorDetail::ExpectedFn))
    } else {
        match spec_statement(toks, i) {
            Err(e) => Err(e),
            Ok((n, j)) => {
                let k = skip_nl(toks, j);
                if i < k {
                    spec_block(toks, k, fn_only, acc.push(n))
                } else {
                    Ok((acc.push(n), k))
                }
            },
        }
    }
}

pub open spec fn spec_statement(toks: Seq<SToken>, i: int) -> Result<(SNode, int), ParseError>
    decreases msr(toks.len() as int, i), 6nat,
{
    if !(1 <= i <= toks.len() + 1) {
        Err(perr(toks, i, ErrorType::UnexpectedToken, ErrorDetail::ExpectedAtom))
    } else if cur(toks, i).tp == TokenType::Keyword {
        spec_keyword(toks, i)
    } else {
        spec_expr(toks, i, Precedence::Lowest)
    }
}

pub open spec fn spec_keyword(toks: Seq<SToken>, i: int) -> Result<(SNode, int), ParseError>
    decreases msr(toks.len() as int, i), 5nat,
{
    let d = cur(toks, i).data;
    if !(1 <= i <= toks.len() + 1) {
        Err(perr(toks, i, ErrorType::UnknownKeyword, ErrorDetail::Keyword))
    } else if d == word_fn() {
        spec_parse_fn(toks, i)
    } else if d == word_return() {
        spec_parse_return(toks, i)
    } else if d == word_class() {
        spec_parse_class(toks, i)
    } else {
        Err(perr(toks, i, ErrorType::UnknownKeyword, ErrorDetail::Keyword))
    }
}

pub open spec fn spec_expr(toks: Seq<SToken>, i: int, prec: Precedence) -> Result<
    (SNode, int),
    ParseError,
>
    decreases msr(toks.len() as int, i), 4nat,
{
    if !(1 <= i <= toks.len() + 1) {
        Err(perr(toks, i, ErrorType::UnexpectedToken, ErrorDetail::ExpectedAtom))
    } else {
        match spec_atom(toks, i) {
            Err(e) => Err(e),
            Ok((None, _)) => Err(perr(toks, i, ErrorType::UnexpectedToken, ErrorDetail::ExpectedAtom)),
            Ok((Some(left), j)) => {
                if left.kind is Store {
                    Ok((left, j))
                } else if i <= j {
                    spec_expr_loop(toks, j + 1, prec, left, true, cur(toks, j).tp)
                } else {
                    Ok((left, j))
                }
            },
        }
    }
}

/// The operator loop of an expression: `first` while no operator was taken;
/// `prev`: the kind of the token just before the loop.
pub open spec fn spec_expr_loop(
    toks: Seq<SToken>,
    k: int,
    prec: Precedence,
    left: SNode,
    first: bool,
    prev: TokenType,
) -> Result<(SNode, int), ParseError>
    decreases msr(toks.len() as int, k), 2nat,
{
    let c = cur(toks, k);
    if !(1 <= k) {
        Ok((left, k))
    } else if c.tp != TokenType::Eof && prec_num(prec) < prec_num(token_precedence(c.tp)) {
        if c.tp == TokenType::Plus || c.tp == TokenType::Hyphen || c.tp == TokenType::Asterisk
            || c.tp == TokenType::Slash {
            match spec_binary(toks, k, left, token_precedence(c.tp)) {
                Err(e) => Err(e),
                Ok((n, k2)) => if k < k2 {
                    spec_expr_loop(toks, k2, prec, n, false, prev)
                } else {
                    Ok((n, k2))
                },
            }
        } else {
            Ok((left, k))
        }
    } else if is_atomic_tp(c.tp) && first && c.tp != TokenType::Eof && c.tp != TokenType::Newline
        && prev != TokenType::Newline {
        Err(perr(toks, k, ErrorType::TrailingAtomics, ErrorDetail::Trailing))
    } else {
        Ok((left, k))
    }
}

pub open spec fn spec_atom(toks: Seq<SToken>, i: int) -> Result<(Option<SNode>, int), ParseError>
    decreases msr(toks.len() as int, i), 3nat,
{
    let c = cur(toks, i);
    if !(1 <= i <= toks.len() + 1) {
        Ok((None, i))
    } else if c.tp == TokenType::Decimal {
        Ok((Some(leaf(toks, i, SKind::Decimal(c.data))), i))
    } else if c.tp == TokenType::Identifier {
        match spec_identifier(toks, i) {
            Err(e) => Err(e),
            Ok((n, j)) => Ok((Some(n), j)),
        }
    } else if c.tp == TokenType::Hyphen {
        match spec_negate(toks, i) {
            Err(e) => Err(e),
            Ok((n, j)) => Ok((Some(n), j)),
        }
    } else if c.tp == TokenType::LParen {
        match spec_expr(toks, i + 1, Precedence::Lowest) {
            Err(e) => Err(e),
            Ok((n, j)) => Ok((Some(n), j)),
        }
    } else if c.tp == TokenType::String {
        Ok((Some(leaf(toks, i, SKind::Str(c.data))), i))
    } else if c.tp == TokenType::LSquare {
        match spec_list(toks, i + 1, here(toks, i), seq![]) {
            Err(e) => Err(e),
            Ok((n, j)) => Ok((Some(n), j)),
        }
    } else if c.tp == TokenType::LCurly {
        match spec_dict(toks, i + 1, here(toks, i), seq![], seq![]) {
            Err(e) => Err(e),
            Ok((n, j)) => Ok((Some(n), j)),
        }
    } else {
        Ok((None, i))
    }
}

pub open spec fn spec_identifier(toks: Seq<SToken>, i: int) -> Result<(SNode, int), ParseError>
    decreases msr(toks.len() as int, i), 2nat,
{
    let c = cur(toks, i);
    if !(1 <= i <= toks.len()) {
        Err(perr(toks, i, ErrorType::UnexpectedToken, ErrorDetail::ExpectedAtom))
    } else if tok(toks, i).tp == TokenType::Equals {
        match spec_expr(toks, i + 2, Precedence::Lowest) {
            Err(e) => Err(e),
            Ok((e, j)) => Ok(
                (
                    SNode {
                        start: pos_of(c),
                        end: here(toks, j),
                        kind: SKind::Store(c.data, Box::new(e)),
                    },
                    j,
                ),
            ),
        }
    } else {
        let res = leaf(toks, i, SKind::Identifier(c.data));
        if tok(toks, i).tp == TokenType::LParen {
            spec_call(toks, i + 3, res, seq![])
        } else {
            Ok((res, i))
        }
    }
}

pub open spec fn spec_negate(toks: Seq<SToken>, i: int) -> Result<(SNode, int), ParseError>
    decreases msr(toks.len() as int, i), 2nat,
{
    if !(1 <= i <= toks.len()) {
        Err(perr(toks, i, ErrorType::UnexpectedToken, ErrorDetail::ExpectedAtom))
    } else {
        match spec_expr(toks, i + 1, Precedence::Lowest) {
            Err(e) => Err(e),
            Ok((e, j)) => Ok(
                (
                    SNode {
                        start: e.start,
                        end: here(toks, j - 1),
                        kind: SKind::Unary(Box::new(e), OpType::Neg),
                    },
                    j - 1,
                ),
            ),
        }
    }
}

/// The elements of a list display from index `k` (after `[`).
pub open spec fn spec_list(toks: Seq<SToken>, k: int, start: Position, acc: Seq<SNode>) -> Result<
    (SNode, int),
    ParseError,
>
    decreases msr(toks.len() as int, k), 5nat,
{
    let c = cur(toks, k);
    if !(1 <= k) {
        Ok((SNode { start, end: here(toks, k), kind: SKind::List(acc) }, k))
    } else if c.tp != TokenType::RSquare && c.tp != TokenType::Eof {
        match spec_expr(toks, k, Precedence::Lowest) {
            Err(e) => Err(e),
            Ok((v, k2)) => {
                let acc2 = acc.push(v);
                if cur(toks, k2).tp == TokenType::RSquare {
                    Ok((SNode { start, end: here(toks, k2 + 1), kind: SKind::List(acc2) }, k2 + 1))
                } else if s_expect(toks, k2, TokenType::Comma) is Some {
                    Err(s_expect(toks, k2, TokenType::Comma).unwrap())
                } else if k < k2 + 1 {
                    spec_list(toks, k2 + 1, start, acc2)
                } else {
                    Ok((SNode { start, end: here(toks, k2 + 1), kind: SKind::List(acc2) }, k2 + 1))
                }
            },
        }
    } else {
        Ok((SNode { start, end: here(toks, k), kind: SKind::List(acc) }, k))
    }
}

/// The entries of a dictionary display from index `k` (after `{`).
pub open spec fn spec_dict(
    toks: Seq<SToken>,
    k: int,
    start: Position,
    keys: Seq<SNode>,
    values: Seq<SNode>,
) -> Result<(SNode, int), ParseError>
    decreases msr(toks.len() as int, k), 5nat,
{
    let c = cur(toks, k);
    if !(1 <= k) {
        Ok((SNode { start, end: here(toks, k), kind: SKind::Dict(keys, values) }, k))
    } else if c.tp != TokenType::RCurly && c.tp != TokenType::Eof {
        match spec_expr(toks, k, Precedence::Lowest) {
            Err(e) => Err(e),
            Ok((key, k2)) => {
                if s_expect(toks, k2, TokenType::Colon) is Some {
                    Err(s_expect(toks, k2, TokenType::Colon).unwrap())
                } else if k2 < k {
                    Ok((SNode { start, end: here(toks, k2), kind: SKind::Dict(keys, values) }, k2))
                } else {
                    match spec_expr(toks, k2 + 1, Precedence::Lowest) {
                        Err(e) => Err(e),
                        Ok((value, k4)) => {
                            let keys2 = keys.push(key);
                            let values2 = values.push(value);
                            if cur(toks, k4).tp == TokenType::RCurly {
                                Ok(
                                    (
                                        SNode {
                                            start,
                                            end: here(toks, k4 + 1),
                                            kind: SKind::Dict(keys2, values2),
                                        },
                                        k4 + 1,
                                    ),
                                )
                            } else if s_expect(toks, k4, TokenType::Comma) is Some {
                                Err(s_expect(toks, k4, TokenType::Comma).unwrap())
                            } else if k < k4 + 1 {
                                spec_dict(toks, k4 + 1, start, keys2, values2)
                            } else {
                                Ok(
                                    (
                                        SNode {
                                            start,
                                            end: here(toks, k4 + 1),
                                            kind: SKind::Dict(keys2, values2),
                                        },
                                        k4 + 1,
                                    ),
                                )
                            }
                        },
                    }
                }
            },
        }
    } else {
        Ok((SNode { start, end: here(toks, k), kind: SKind::Dict(keys, values) }, k))
    }
}

pub open spec fn spec_binary(toks: Seq<SToken>, k: int, left: SNode, prec: Precedence) -> Result<
    (SNode, int),
    ParseError,
>
    decreases msr(toks.len() as int, k), 1nat,
{
    let op = token_op(cur(toks, k).tp);
    if !(1 <= k <= toks.len()) {
        Err(perr(toks, k, ErrorType::UnexpectedToken, ErrorDetail::ExpectedAtom))
    } else {
        match spec_expr(toks, k + 1, prec) {
            Err(e) => Err(e),
            Ok((right, j)) => Ok(
                (
                    SNode {
                        start: left.start,
                        end: here(toks, k + 1),
                        kind: SKind::Binary(Box::new(left), Box::new(right), op),
                    },
                    j,
                ),
            ),
        }
    }
}

/// The arguments of a call from index `k`; `callee`: the called expression.
pub open spec fn spec_call(toks: Seq<SToken>, k: int, callee: SNode, acc: Seq<SNode>) -> Result<
    (SNode, int),
    ParseError,
>
    decreases msr(toks.len() as int, k), 5nat,
{
    let c = cur(toks, k);
    if !(1 <= k) {
        Ok(
            (
                SNode {
                    start: callee.start,
                    end: here(toks, k),
                    kind: SKind::Call(Box::new(callee), acc),
                },
                k,
            ),
        )
    } else if c.tp != TokenType::RParen && c.tp != TokenType::Eof {
        match spec_expr(toks, k, Precedence::Lowest) {
            Err(e) => Err(e),
            Ok((a, k2)) => {
                let acc2 = acc.push(a);
                if cur(toks, k2).tp == TokenType::RParen {
                    Ok(
                        (
                            SNode {
                                start: callee.start,
                                end: here(toks, k2 + 1),
                                kind: SKind::Call(Box::new(callee), acc2),
                            },
                            k2 + 1,
                        ),
                    )
                } else if s_expect(toks, k2, TokenType::Comma) is Some {
                    Err(s_expect(toks, k2, TokenType::Comma).unwrap())
                } else if k < k2 + 1 {
                    spec_call(toks, k2 + 1, callee, acc2)
                } else {
                    Ok(
                        (
                            SNode {
                                start: callee.start,
                                end: here(toks, k2 + 1),
                                kind: SKind::Call(Box::new(callee), acc2),
                            },
                            k2 + 1,
                        ),
                    )
                }
            },
        }
    } else {
        Ok(
            (
                SNode {
                    start: callee.start,
                    end: here(toks, k),
                    kind: SKind::Call(Box::new(callee), acc),
                },
                k,
            ),
        )
    }
}

/// The parameter names of a function definition from index `k`.
pub open spec fn spec_fn_args(toks: Seq<SToken>, k: int, acc: Seq<Seq<char>>) -> Result<
    (Seq<Seq<char>>, int),
    ParseError,
>
    decreases msr(toks.len() as int, k),
{
    let c = cur(toks, k);
    if !(1 <= k) {
        Ok((acc, k))
    } else if c.tp != TokenType::RParen && c.tp != TokenType::Eof {
        if s_expect(toks, k, TokenType::Identifier) is Some {
            Err(s_expect(toks, k, TokenType::Identifier).unwrap())
        } else {
            let acc2 = acc.push(c.data);
            if cur(toks, k + 1).tp == TokenType::RParen {
                Ok((acc2, k + 2))
            } else if s_expect(toks, k + 1, TokenType::Comma) is Some {
                Err(s_expect(toks, k + 1, TokenType::Comma).unwrap())
            } else {
                spec_fn_args(toks, k + 2, acc2)
            }
        }
    } else {
        Ok((acc, k))
    }
}

pub open spec fn spec_parse_fn(toks: Seq<SToken>, i: int) -> Result<(SNode, int), ParseError>
    decreases msr(toks.len() as int, i), 4nat,
{
    let start = here(toks, i);
    if !(1 <= i <= toks.len()) {
        Err(perr(toks, i, ErrorType::UnexpectedToken, ErrorDetail::ExpectedAtom))
    } else if cur(toks, i + 1).tp == TokenType::Eof {
        Err(perr(toks, i + 1, ErrorType::UnexpectedEOF, ErrorDetail::EofExpectingIdentifier))
    } else {
        let name = cur(toks, i + 1).data;
        if s_expect(toks, i + 2, TokenType::LParen) is Some {
            Err(s_expect(toks, i + 2, TokenType::LParen).unwrap())
        } else {
            match spec_fn_args(toks, i + 3, seq![]) {
                Err(e) => Err(e),
                Ok((args, k)) => {
                    if s_expect(toks, k, TokenType::LCurly) is Some {
                        Err(s_expect(toks, k, TokenType::LCurly).unwrap())
                    } else {
                        let b = skip_nl(toks, k + 1);
                        if i < b <= toks.len() + 1 {
                            match spec_block(toks, b, false, seq![]) {
                                Err(e) => Err(e),
                                Ok((code, m)) => {
                                    let m2 = skip_nl(toks, m);
                                    if s_expect(toks, m2, TokenType::RCurly) is Some {
                                        Err(s_expect(toks, m2, TokenType::RCurly).unwrap())
                                    } else {
                                        Ok(
                                            (
                                                SNode {
                                                    start,
                                                    end: here(toks, m2 + 1),
                                                    kind: SKind::Function(name, args, code),
                                                },
                                                m2 + 1,
                                            ),
                                        )
                                    }
                                },
                            }
                        } else {
                            Err(perr(toks, b, ErrorType::UnexpectedToken, ErrorDetail::ExpectedAtom))
                        }
                    }
                },
            }
        }
    }
}

pub open spec fn spec_parse_return(toks: Seq<SToken>, i: int) -> Result<(SNode, int), ParseError>
    decreases msr(toks.len() as int, i), 4nat,
{
    if !(1 <= i <= toks.len()) {
        Err(perr(toks, i, ErrorType::UnexpectedToken, ErrorDetail::ExpectedAtom))
    } else {
        match spec_expr(toks, i + 1, Precedence::Lowest) {
            Err(e) => Err(e),
            Ok((e, j)) => Ok(
                (SNode { start: e.start, end: here(toks, j), kind: SKind::Return(Box::new(e)) }, j),
            ),
        }
    }
}

pub open spec fn spec_parse_class(toks: Seq<SToken>, i: int) -> Result<(SNode, int), ParseError>
    decreases msr(toks.len() as int, i), 4nat,
{
    let start = here(toks, i);
    if !(1 <= i <= toks.len()) {
        Err(perr(toks, i, ErrorType::UnexpectedToken, ErrorDetail::ExpectedAtom))
    } else if cur(toks, i + 1).tp == TokenType::Eof {
        Err(perr(toks, i + 1, ErrorType::UnexpectedEOF, ErrorDetail::EofExpectingIdentifier))
    } else {
        let name = cur(toks, i + 1).data;
        if s_expect(toks, i + 2, TokenType::LCurly) is Some {
            Err(s_expect(toks, i + 2, TokenType::LCurly).unwrap())
        } else {
            let b = skip_nl(toks, i + 3);
            let c = cur(toks, b);
            if c.tp != TokenType::Keyword && c.data != word_fn() {
                Err(
                    perr(
                        toks,
                        b,
                        ErrorType::UnexpectedToken,
                        ErrorDetail::Expected { expected: TokenType::Keyword, got: c.tp },
                    ),
                )
            } else if i < b <= toks.len() + 1 {
                match spec_block(toks, b, true, seq![]) {
                    Err(e) => Err(e),
                    Ok((code, m)) => {
                        let m2 = skip_nl(toks, m);
                        if s_expect(toks, m2, TokenType::RCurly) is Some {
                            Err(s_expect(toks, m2, TokenType::RCurly).unwrap())
                        } else {
                            Ok(
                                (
                                    SNode {
                                        start,
                                        end: here(toks, m2 + 1),
                                        kind: SKind::Class(name, code),
                                    },
                                    m2 + 1,
                                ),
                            )
                        }
                    },
                }
            } else {
                Err(perr(toks, b, ErrorType::UnexpectedToken, ErrorDetail::ExpectedAtom))
            }
        }
    }
}

/// The statements of a whole token sequence.
pub open spec fn spec_generate_ast(toks: Seq<SToken>) -> Result<Seq<SNode>, ParseError> {
    match spec_block(toks, 1, false, seq![]) {
        Ok((nodes, _)) => Ok(nodes),
        Err(e) => Err(e),
    }
}


// ---------------------------------------------------------------------------
// Parsing, executed.

/// The parser over a token sequence.
pub struct Parser {
    tokens: Vec<Token>,
    current: Token,
    idx: usize,
}

pub open spec fn node_res(r: Result<Node, ParseError>, s: Result<(SNode, int), ParseError>, idx: int) -> bool {
    match s {
        Ok((n, j)) => match r {
            Ok(x) => x@ == n && idx == j,
            Err(_) => false,
        },
        Err(e) => r == Err::<Node, ParseError>(e),
    }
}

pub open spec fn opt_node_res(
    r: Result<Option<Node>, ParseError>,
    s: Result<(Option<SNode>, int), ParseError>,
    idx: int,
) -> bool {
    match s {
        Ok((None, j)) => r == Ok::<Option<Node>, ParseError>(None) && idx == j,
        Ok((Some(n), j)) => match r {
            Ok(Some(x)) => x@ == n && idx == j,
            _ => false,
        },
        Err(e) => r == Err::<Option<Node>, ParseError>(e),
    }
}

fn eof_tok() -> (t: Token)
    ensures
        t@ == eof_token(),
{
    let mut data = String::new();
    push_char(&mut data, '\0');
    Token { data, tp: TokenType::Eof, line: 0, startcol: 0, endcol: 0 }
}

/// Whether `s` is the text of `w`.
fn text_is(s: &String, w: &str) -> (r: bool)
    ensures
        r == (s@ == w@),
{
    let t = w.to_owned();
    *s == t
}

fn is_word_fn(s: &String) -> (r: bool)
    ensures
        r == (s@ == word_fn()),
{
    proof {
        reveal_strlit("fn");
        assert("fn"@ =~= word_fn());
    }
    text_is(s, "fn")
}

fn is_word_return(s: &String) -> (r: bool)
    ensures
        r == (s@ == word_return()),
{
    proof {
        reveal_strlit("return");
        assert("return"@ =~= word_return());
    }
    text_is(s, "return")
}

fn is_word_class(s: &String) -> (r: bool)
    ensures
        r == (s@ == word_class()),
{
    proof {
        reveal_strlit("class");
        assert("class"@ =~= word_class());
    }
    text_is(s, "class")
}

/// A parser at the first token.
pub fn new(tokens: Vec<Token>) -> (p: Parser)
    requires
        tokens.len() > 0,
        3 * tokens.len() + 20 <= usize::MAX,
    ensures
        p.wf(),
        p.toks() == tokens_view(tokens@),
        p.at() == 1,
{
    let current = tokens[0].duplicate();
    Parser { tokens, current, idx: 1 }
}

/// What a parser is at: its tokens, its index, and its current token.
pub struct SParser {
    pub toks: Seq<SToken>,
    pub idx: int,
    pub current: SToken,
}

/// The parser one token further on.
pub open spec fn spec_advanced(s: SParser) -> SParser {
    SParser { idx: s.idx + 1, current: cur(s.toks, s.idx + 1), ..s }
}

/// The parser one token back.
pub open spec fn spec_reversed(s: SParser) -> SParser {
    SParser { idx: s.idx - 1, current: cur(s.toks, s.idx - 1), ..s }
}

/// Going one token back after going one forward puts a parser where it
/// was: at the same index, on the same current token.
pub proof fn law_reverse_undoes_advance(s: SParser)
    requires
        s.current == cur(s.toks, s.idx),
    ensures
        spec_reversed(spec_advanced(s)) == s,
{
}

impl Parser {
    /// The parser's state.
    pub closed spec fn model(&self) -> SParser {
        SParser { toks: self.toks(), idx: self.idx as int, current: self.current@ }
    }

    pub closed spec fn toks(&self) -> Seq<SToken> {
        tokens_view(self.tokens@)
    }

    pub closed spec fn at(&self) -> int {
        self.idx as int
    }

    pub closed spec fn wf(&self) -> bool {
        &&& 3 * self.tokens.len() + 20 <= usize::MAX
        &&& 1 <= self.idx <= 3 * self.tokens.len() + 10
        &&& self.current@ == cur(self.toks(), self.idx as int)
    }

    fn advance(&mut self)
        requires
            old(self).wf(),
            old(self).idx < 3 * old(self).tokens.len() + 10,
        ensures
            final(self).wf(),
            final(self).tokens@ == old(self).tokens@,
            final(self).idx == old(self).idx + 1,
            final(self).model() == spec_advanced(old(self).model()),
    {
        self.idx = self.idx + 1;
        if self.idx - 1 >= self.tokens.len() {
            self.current = eof_tok();
        } else {
            self.current = self.tokens[self.idx - 1].duplicate();
        }
    }

    fn reverse(&mut self) -> (r: Token)
        requires
            old(self).wf(),
            old(self).idx >= 2,
        ensures
            final(self).wf(),
            final(self).tokens@ == old(self).tokens@,
            final(self).idx == old(self).idx - 1,
            final(self).model() == spec_reversed(old(self).model()),
            r@ == final(self).model().current,
    {
        self.idx = self.idx - 1;
        if self.idx - 1 >= self.tokens.len() {
            self.current = eof_tok();
        } else {
            self.current = self.tokens[self.idx - 1].duplicate();
        }
        self.current.duplicate()
    }

    fn current_is_type(&self, tp: TokenType) -> (r: bool)
        ensures
            r == (self.current.tp == tp),
    {
        self.current.tp == tp
    }

    /// Whether the token after the current one is of kind `tp`.
    fn next_is_type(&mut self, tp: TokenType) -> (r: bool)
        requires
            old(self).wf(),
            old(self).idx < 3 * old(self).tokens.len() + 10,
        ensures
            final(self).wf(),
            final(self).tokens@ == old(self).tokens@,
            final(self).idx == old(self).idx,
            r == (tok(old(self).toks(), old(self).idx as int).tp == tp),
    {
        self.advance();
        if self.current.tp == tp {
            self.reverse();
            return true;
        }
        self.reverse();
        false
    }

    fn skip_newlines(&mut self)
        requires
            old(self).wf(),
        ensures
            final(self).wf(),
            final(self).tokens@ == old(self).tokens@,
            final(self).idx == skip_nl(old(self).toks(), old(self).idx as int),
            final(self).idx <= if old(self).idx <= old(self).tokens.len() + 1 {
                old(self).tokens.len() + 1 as int
            } else {
                old(self).idx as int
            },
            final(self).idx >= old(self).idx,
    {
        let ghost t = self.toks();
        let ghost i0 = self.idx as int;
        while self.current_is_type(TokenType::Newline)
            invariant
                self.wf(),
                self.tokens@ == old(self).tokens@,
                t == self.toks(),
                skip_nl(t, self.idx as int) == skip_nl(t, i0),
                i0 <= self.idx,
                self.idx <= if i0 <= t.len() + 1 {
                    t.len() + 1 as int
                } else {
                    i0
                },
            decreases t.len() + 2 - self.idx,
        {
            self.advance();
        }
    }

    fn here_pos(&self) -> (p: Position)
        ensures
            p == pos_of(self.current@),
    {
        Position::create_from_parts(self.current.startcol, self.current.endcol, self.current.line)
    }

    /// The error `errtp`/`detail` raised at the current token.
    fn raise_error(&self, errtp: ErrorType, detail: ErrorDetail) -> (e: ParseError)
        ensures
            e == (ParseError { tp: errtp, detail, pos: pos_of(self.current@) }),
    {
        ParseError { tp: errtp, detail, pos: self.here_pos() }
    }

    fn get_precedence(&self) -> (p: Precedence)
        ensures
            p == token_precedence(self.current.tp),
    {
        match self.current.tp {
            TokenType::Plus | TokenType::Hyphen => Precedence::Sum,
            TokenType::Asterisk | TokenType::Slash => Precedence::Product,
            _ => Precedence::Lowest,
        }
    }

    fn ensure_not_eof(&self) -> (r: Result<(), ParseError>)
        ensures
            r == if self.current.tp == TokenType::Eof {
                Err(
                    ParseError {
                        tp: ErrorType::UnexpectedEOF,
                        detail: ErrorDetail::EofExpectingIdentifier,
                        pos: pos_of(self.current@),
                    },
                )
            } else {
                Ok::<(), ParseError>(())
            },
    {
        if self.current_is_type(TokenType::Eof) {
            return Err(self.raise_error(ErrorType::UnexpectedEOF, ErrorDetail::EofExpectingIdentifier));
        }
        Ok(())
    }

    fn expect(&self, typ: TokenType) -> (r: Result<(), ParseError>)
        requires
            self.wf(),
        ensures
            r == match s_expect(self.toks(), self.idx as int, typ) {
                Some(e) => Err(e),
                None => Ok::<(), ParseError>(()),
            },
    {
        if !self.current_is_type(typ) {
            return Err(
                self.raise_error(
                    ErrorType::UnexpectedToken,
                    ErrorDetail::Expected { expected: typ, got: self.current.tp },
                ),
            );
        }
        Ok(())
    }

    /// The statements up to `}` or the end of the tokens; with `fn_only`,
    /// each must be a function definition.
    fn block(&mut self, fn_only: bool) -> (r: Result<Vec<Node>, ParseError>)
        requires
            old(self).wf(),
            1 <= old(self).at() <= old(self).tokens.len() + 1,
        ensures
            final(self).wf(),
            final(self).tokens@ == old(self).tokens@,
            match spec_block(old(self).toks(), old(self).at(), fn_only, seq![]) {
                Ok((ns, j)) => match r {
                    Ok(v) => nodes_view(v@) == ns && final(self).at() == j,
                    Err(_) => false,
                },
                Err(e) => r == Err::<Vec<Node>, ParseError>(e),
            },
            r is Ok ==> old(self).at() <= final(self).at() <= bound(
                old(self).tokens.len() as int,
                old(self).at(),
            ),
        decreases msr(old(self).tokens.len() as int, old(self).at()), 7nat,
    {
        let ghost t = self.toks();
        let ghost len = self.tokens.len() as int;
        let ghost i0 = self.at();
        let mut nodes: Vec<Node> = Vec::new();
        while !self.current_is_type(TokenType::Eof) && !self.current_is_type(TokenType::RCurly)
            invariant
                self.wf(),
                self.tokens@ == old(self).tokens@,
                t == self.toks(),
                t == old(self).toks(),
                i0 == old(self).at(),
                len == self.tokens.len(),
                len == old(self).tokens.len(),
                1 <= i0 <= len + 1,
                i0 <= self.at() <= bound(len, i0),
                spec_block(t, self.at(), fn_only, nodes_view(nodes@)) == spec_block(
                    t,
                    i0,
                    fn_only,
                    seq![],
                ),
            decreases msr(len, self.at()),
        {
            if fn_only && !(self.current_is_type(TokenType::Keyword) && is_word_fn(
                &self.current.data,
            )) {
                return Err(self.raise_error(ErrorType::UnexpectedToken, ErrorDetail::ExpectedFn));
            }
            let ghost k = self.at();
            let n = match self.parse_statement() {
                Err(e) => return Err(e),
                Ok(n) => n,
            };
            self.skip_newlines();
            let ghost before = nodes@;
            nodes.push(n);
            proof {
                lemma_nodes_view_push(before, n);
            }
        }
        Ok(nodes)
    }

    fn parse_statement(&mut self) -> (r: Result<Node, ParseError>)
        requires
            old(self).wf(),
            1 <= old(self).at() <= old(self).tokens.len() + 1,
        ensures
            final(self).wf(),
            final(self).tokens@ == old(self).tokens@,
            node_res(r, spec_statement(old(self).toks(), old(self).at()), final(self).at()),
            r is Ok ==> old(self).at() < final(self).at() <= bound(
                old(self).tokens.len() as int,
                old(self).at(),
            ),
        decreases msr(old(self).tokens.len() as int, old(self).at()), 6nat,
    {
        if self.current_is_type(TokenType::Keyword) {
            self.keyword()
        } else {
            self.expr(Precedence::Lowest)
        }
    }

    fn keyword(&mut self) -> (r: Result<Node, ParseError>)
        requires
            old(self).wf(),
            1 <= old(self).at() <= old(self).tokens.len() + 1,
        ensures
            final(self).wf(),
            final(self).tokens@ == old(self).tokens@,
            node_res(r, spec_keyword(old(self).toks(), old(self).at()), final(self).at()),
            r is Ok ==> old(self).at() < final(self).at() <= bound(
                old(self).tokens.len() as int,
                old(self).at(),
            ),
        decreases msr(old(self).tokens.len() as int, old(self).at()), 5nat,
    {
        if is_word_fn(&self.current.data) {
            self.parse_fn()
        } else if is_word_return(&self.current.data) {
            self.parse_return()
        } else if is_word_class(&self.current.data) {
            self.parse_class()
        } else {
            Err(self.raise_error(ErrorType::UnknownKeyword, ErrorDetail::Keyword))
        }
    }

    fn is_atomic(&self) -> (r: bool)
        ensures
            r == is_atomic_tp(self.current.tp),
    {
        self.current_is_type(TokenType::Decimal) || self.current_is_type(TokenType::Identifier)
            || self.current_is_type(TokenType::Hyphen) || self.current_is_type(TokenType::LParen)
            || self.current_is_type(TokenType::String) || self.current_is_type(TokenType::LCurly)
    }

    fn expr(&mut self, precedence: Precedence) -> (r: Result<Node, ParseError>)
        requires
            old(self).wf(),
            1 <= old(self).at() <= old(self).tokens.len() + 1,
        ensures
            final(self).wf(),
            final(self).tokens@ == old(self).tokens@,
            node_res(r, spec_expr(old(self).toks(), old(self).at(), precedence), final(self).at()),
            r is Ok ==> old(self).at() < final(self).at() <= bound(
                old(self).tokens.len() as int,
                old(self).at(),
            ),
        decreases msr(old(self).tokens.len() as int, old(self).at()), 4nat,
    {
        let ghost t = self.toks();
        let ghost len = self.tokens.len() as int;
        let ghost i0 = self.at();
        let left0 = match self.atom() {
            Err(e) => return Err(e),
            Ok(None) => {
                return Err(self.raise_error(ErrorType::UnexpectedToken, ErrorDetail::ExpectedAtom))
            },
            Ok(Some(v)) => v,
        };
        if left0.tp() == NodeType::StoreNode {
            return Ok(left0);
        }
        let prev = self.current.tp;
        self.advance();
        let ghost k0 = self.at();
        let ghost l0 = left0@;
        let mut left = left0;
        let mut first = true;
        while !self.current_is_type(TokenType::Eof) && prec_num_exec(precedence) < prec_num_exec(
            self.get_precedence(),
        )
            invariant
                self.wf(),
                self.tokens@ == old(self).tokens@,
                t == self.toks(),
                t == old(self).toks(),
                i0 == old(self).at(),
                len == self.tokens.len(),
                len == old(self).tokens.len(),
                1 <= i0 <= len + 1,
                i0 < self.at() <= bound(len, i0),
                spec_expr_loop(t, self.at(), precedence, left@, first, prev) == spec_expr_loop(
                    t,
                    k0,
                    precedence,
                    l0,
                    true,
                    prev,
                ),
                spec_expr(t, i0, precedence) == spec_expr_loop(t, k0, precedence, l0, true, prev),
            decreases msr(len, self.at()),
        {
            match self.current.tp {
                TokenType::Plus | TokenType::Hyphen | TokenType::Asterisk | TokenType::Slash => {
                    let p = self.get_precedence();
                    left = match self.generate_binary(left, p) {
                        Err(e) => return Err(e),
                        Ok(n) => n,
                    };
                },
                _ => {
                    return Ok(left);
                },
            }
            first = false;
        }
        if self.is_atomic() && first && !self.current_is_type(TokenType::Eof)
            && !self.current_is_type(TokenType::Newline) && prev != TokenType::Newline {
            return Err(self.raise_error(ErrorType::TrailingAtomics, ErrorDetail::Trailing));
        }
        Ok(left)
    }

    fn atom(&mut self) -> (r: Result<Option<Node>, ParseError>)
        requires
            old(self).wf(),
            1 <= old(self).at() <= old(self).tokens.len() + 1,
        ensures
            final(self).wf(),
            final(self).tokens@ == old(self).tokens@,
            opt_node_res(r, spec_atom(old(self).toks(), old(self).at()), final(self).at()),
            r matches Ok(Some(n)) ==> (n@.kind is Store ==> old(self).at() < final(self).at()),
            r is Ok ==> old(self).at() <= final(self).at() <= bound(
                old(self).tokens.len() as int,
                old(self).at(),
            ) - 1,
        decreases msr(old(self).tokens.len() as int, old(self).at()), 3nat,
    {
        match self.current.tp {
            TokenType::Decimal => {
                let p = self.here_pos();
                let value = self.current.data.clone();
                Ok(Some(Node::new(p, p, NodeData::Decimal(DecimalNode { value }))))
            },
            TokenType::Identifier => match self.generate_identifier() {
                Err(e) => Err(e),
                Ok(n) => Ok(Some(n)),
            },
            TokenType::Hyphen => match self.generate_negate() {
                Err(e) => Err(e),
                Ok(n) => Ok(Some(n)),
            },
            TokenType::LParen => {
                self.advance();
                match self.expr(Precedence::Lowest) {
                    Err(e) => Err(e),
                    Ok(n) => Ok(Some(n)),
                }
            },
            TokenType::String => {
                let p = self.here_pos();
                let value = self.current.data.clone();
                Ok(Some(Node::new(p, p, NodeData::String(StringNode { value }))))
            },
            TokenType::LSquare => match self.generate_list() {
                Err(e) => Err(e),
                Ok(n) => Ok(Some(n)),
            },
            TokenType::LCurly => match self.generate_dict() {
                Err(e) => Err(e),
                Ok(n) => Ok(Some(n)),
            },
            _ => Ok(None),
        }
    }

    fn generate_identifier(&mut self) -> (r: Result<Node, ParseError>)
        requires
            old(self).wf(),
            1 <= old(self).at() <= old(self).tokens.len(),
            old(self).current.tp == TokenType::Identifier,
        ensures
            final(self).wf(),
            final(self).tokens@ == old(self).tokens@,
            node_res(r, spec_identifier(old(self).toks(), old(self).at()), final(self).at()),
            r matches Ok(n) ==> (n@.kind is Store ==> old(self).at() < final(self).at()),
            r is Ok ==> old(self).at() <= final(self).at() <= bound(
                old(self).tokens.len() as int,
                old(self).at(),
            ) - 1,
        decreases msr(old(self).tokens.len() as int, old(self).at()), 2nat,
    {
        let start = self.here_pos();
        let name = self.current.data.clone();
        if self.next_is_type(TokenType::Equals) {
            self.advance();
            self.advance();
            let expr = match self.expr(Precedence::Lowest) {
                Err(e) => return Err(e),
                Ok(n) => n,
            };
            let end = self.here_pos();
            return Ok(Node::new(start, end, NodeData::StoreNode(Box::new(StoreNode { name, expr }))));
        }
        let res = Node::new(start, start, NodeData::Identifier(IdentifierNode { name }));
        if self.next_is_type(TokenType::LParen) {
            self.advance();
            return self.generate_call(res);
        }
        Ok(res)
    }

    fn generate_negate(&mut self) -> (r: Result<Node, ParseError>)
        requires
            old(self).wf(),
            1 <= old(self).at() <= old(self).tokens.len(),
        ensures
            final(self).wf(),
            final(self).tokens@ == old(self).tokens@,
            node_res(r, spec_negate(old(self).toks(), old(self).at()), final(self).at()),
            r is Ok ==> old(self).at() < final(self).at() <= bound(
                old(self).tokens.len() as int,
                old(self).at(),
            ) - 1,
        decreases msr(old(self).tokens.len() as int, old(self).at()), 2nat,
    {
        self.advance();
        let expr = match self.expr(Precedence::Lowest) {
            Err(e) => return Err(e),
            Ok(n) => n,
        };
        self.reverse();
        let end = self.here_pos();
        Ok(Node::new(expr.start, end, NodeData::Unary(Box::new(UnaryNode { expr, op: OpType::Neg }))))
    }

    fn generate_list(&mut self) -> (r: Result<Node, ParseError>)
        requires
            old(self).wf(),
            1 <= old(self).at() <= old(self).tokens.len(),
        ensures
            final(self).wf(),
            final(self).tokens@ == old(self).tokens@,
            node_res(
                r,
                spec_list(
                    old(self).toks(),
                    old(self).at() + 1,
                    here(old(self).toks(), old(self).at()),
                    seq![],
                ),
                final(self).at(),
            ),
            r is Ok ==> old(self).at() < final(self).at() <= bound(
                old(self).tokens.len() as int,
                old(self).at(),
            ) - 1,
        decreases msr(old(self).tokens.len() as int, old(self).at()), 2nat,
    {
        let ghost t = self.toks();
        let ghost len = self.tokens.len() as int;
        let ghost i0 = self.at();
        let start = self.here_pos();
        self.advance();
        let mut values: Vec<Node> = Vec::new();
        loop
            invariant_except_break
                self.wf(),
                self.tokens@ == old(self).tokens@,
                t == self.toks(),
                t == old(self).toks(),
                i0 == old(self).at(),
                len == self.tokens.len(),
                len == old(self).tokens.len(),
                1 <= i0 <= len,
                start == here(t, i0),
                i0 < self.at() <= bound(len, i0) - 1,
                self.at() <= len + 1 || values.len() > 0,
                values.len() > 0 ==> self.at() <= len + 1,
                spec_list(t, self.at(), start, nodes_view(values@)) == spec_list(t, i0 + 1, start, seq![]),
            ensures
                self.wf(),
                self.tokens@ == old(self).tokens@,
                i0 < self.at() <= bound(len, i0) - 1,
                spec_list(t, i0 + 1, start, seq![]) == Ok::<(SNode, int), ParseError>(
                    (
                        SNode { start, end: here(t, self.at()), kind: SKind::List(nodes_view(values@)) },
                        self.at(),
                    ),
                ),
            decreases msr(len, self.at()),
        {
            if self.current_is_type(TokenType::RSquare) || self.current_is_type(TokenType::Eof) {
                break;
            }
            let v = match self.expr(Precedence::Lowest) {
                Err(e) => return Err(e),
                Ok(n) => n,
            };
            let ghost before = values@;
            values.push(v);
            proof {
                lemma_nodes_view_push(before, v);
            }
            if self.current_is_type(TokenType::RSquare) {
                self.advance();
                break;
            }
            match self.expect(TokenType::Comma) {
                Err(e) => return Err(e),
                Ok(()) => {},
            }
            self.advance();
        }
        let end = self.here_pos();
        Ok(Node::new(start, end, NodeData::List(ListNode { values })))
    }

    fn generate_dict(&mut self) -> (r: Result<Node, ParseError>)
        requires
            old(self).wf(),
            1 <= old(self).at() <= old(self).tokens.len(),
        ensures
            final(self).wf(),
            final(self).tokens@ == old(self).tokens@,
            node_res(
                r,
                spec_dict(
                    old(self).toks(),
                    old(self).at() + 1,
                    here(old(self).toks(), old(self).at()),
                    seq![],
                    seq![],
                ),
                final(self).at(),
            ),
            r is Ok ==> old(self).at() < final(self).at() <= bound(
                old(self).tokens.len() as int,
                old(self).at(),
            ) - 1,
        decreases msr(old(self).tokens.len() as int, old(self).at()), 2nat,
    {
        let ghost t = self.toks();
        let ghost len = self.tokens.len() as int;
        let ghost i0 = self.at();
        let start = self.here_pos();
        self.advance();
        let mut keys: Vec<Node> = Vec::new();
        let mut values: Vec<Node> = Vec::new();
        loop
            invariant_except_break
                self.wf(),
                self.tokens@ == old(self).tokens@,
                t == self.toks(),
                t == old(self).toks(),
                i0 == old(self).at(),
                len == self.tokens.len(),
                len == old(self).tokens.len(),
                1 <= i0 <= len,
                start == here(t, i0),
                i0 < self.at() <= bound(len, i0) - 1,
                self.at() <= len + 1,
                spec_dict(t, self.at(), start, nodes_view(keys@), nodes_view(values@)) == spec_dict(
                    t,
                    i0 + 1,
                    start,
                    seq![],
                    seq![],
                ),
            ensures
                self.wf(),
                self.tokens@ == old(self).tokens@,
                i0 < self.at() <= bound(len, i0) - 1,
                spec_dict(t, i0 + 1, start, seq![], seq![]) == Ok::<(SNode, int), ParseError>(
                    (
                        SNode {
                            start,
                            end: here(t, self.at()),
                            kind: SKind::Dict(nodes_view(keys@), nodes_view(values@)),
                        },
                        self.at(),
                    ),
                ),
            decreases msr(len, self.at()),
        {
            if self.current_is_type(TokenType::RCurly) || self.current_is_type(TokenType::Eof) {
                break;
            }
            let key = match self.expr(Precedence::Lowest) {
                Err(e) => return Err(e),
                Ok(n) => n,
            };
            match self.expect(TokenType::Colon) {
                Err(e) => return Err(e),
                Ok(()) => {},
            }
            self.advance();
            let value = match self.expr(Precedence::Lowest) {
                Err(e) => return Err(e),
                Ok(n) => n,
            };
            let ghost kb = keys@;
            let ghost vb = values@;
            keys.push(key);
            values.push(value);
            proof {
                lemma_nodes_view_push(kb, key);
                lemma_nodes_view_push(vb, value);
            }
            if self.current_is_type(TokenType::RCurly) {
                self.advance();
                break;
            }
            match self.expect(TokenType::Comma) {
                Err(e) => return Err(e),
                Ok(()) => {},
            }
            self.advance();
        }
        let end = self.here_pos();
        Ok(Node::new(start, end, NodeData::Dict(DictNode { keys, values })))
    }

    fn generate_binary(&mut self, left: Node, precedence: Precedence) -> (r: Result<Node, ParseError>)
        requires
            old(self).wf(),
            1 <= old(self).at() <= old(self).tokens.len(),
        ensures
            final(self).wf(),
            final(self).tokens@ == old(self).tokens@,
            node_res(
                r,
                spec_binary(old(self).toks(), old(self).at(), left@, precedence),
                final(self).at(),
            ),
            r is Ok ==> old(self).at() < final(self).at() <= bound(
                old(self).tokens.len() as int,
                old(self).at(),
            ),
        decreases msr(old(self).tokens.len() as int, old(self).at()), 1nat,
    {
        let tp = match self.current.tp {
            TokenType::Plus => OpType::Add,
            TokenType::Hyphen => OpType::Sub,
            TokenType::Asterisk => OpType::Mul,
            _ => OpType::Div,
        };
        self.advance();
        let start = left.start;
        let end = self.here_pos();
        let right = match self.expr(precedence) {
            Err(e) => return Err(e),
            Ok(n) => n,
        };
        Ok(Node::new(start, end, NodeData::Binary(Box::new(BinaryNode { left, right, op: tp }))))
    }

    fn generate_call(&mut self, left: Node) -> (r: Result<Node, ParseError>)
        requires
            old(self).wf(),
            1 <= old(self).at() <= old(self).tokens.len(),
        ensures
            final(self).wf(),
            final(self).tokens@ == old(self).tokens@,
            node_res(
                r,
                spec_call(old(self).toks(), old(self).at() + 2, left@, seq![]),
                final(self).at(),
            ),
            r is Ok ==> old(self).at() + 2 <= final(self).at() <= bound(
                old(self).tokens.len() as int,
                old(self).at(),
            ) + 1,
        decreases msr(old(self).tokens.len() as int, old(self).at()), 1nat,
    {
        let ghost t = self.toks();
        let ghost len = self.tokens.len() as int;
        let ghost i0 = self.at();
        let ghost callee = left@;
        self.advance();
        self.advance();
        let mut args: Vec<Node> = Vec::new();
        loop
            invariant_except_break
                self.wf(),
                self.tokens@ == old(self).tokens@,
                t == self.toks(),
                t == old(self).toks(),
                i0 == old(self).at(),
                len == self.tokens.len(),
                len == old(self).tokens.len(),
                1 <= i0 <= len,
                callee == left@,
                i0 + 2 <= self.at() <= bound(len, i0) + 1,
                args.len() > 0 ==> self.at() <= len + 1,
                spec_call(t, self.at(), callee, nodes_view(args@)) == spec_call(t, i0 + 2, callee, seq![]),
            ensures
                self.wf(),
                self.tokens@ == old(self).tokens@,
                callee == left@,
                i0 + 2 <= self.at() <= bound(len, i0) + 1,
                spec_call(t, i0 + 2, callee, seq![]) == Ok::<(SNode, int), ParseError>(
                    (
                        SNode {
                            start: callee.start,
                            end: here(t, self.at()),
                            kind: SKind::Call(Box::new(callee), nodes_view(args@)),
                        },
                        self.at(),
                    ),
                ),
            decreases msr(len, self.at()),
        {
            if self.current_is_type(TokenType::RParen) || self.current_is_type(TokenType::Eof) {
                break;
            }
            let a = match self.expr(Precedence::Lowest) {
                Err(e) => return Err(e),
                Ok(n) => n,
            };
            let ghost before = args@;
            args.push(a);
            proof {
                lemma_nodes_view_push(before, a);
            }
            if self.current_is_type(TokenType::RParen) {
                self.advance();
                break;
            }
            match self.expect(TokenType::Comma) {
                Err(e) => return Err(e),
                Ok(()) => {},
            }
            self.advance();
        }
        let start = left.start;
        let end = self.here_pos();
        Ok(Node::new(start, end, NodeData::Call(Box::new(CallNode { ident: left, args }))))
    }

    fn parse_fn_args(&mut self) -> (r: Result<Vec<String>, ParseError>)
        requires
            old(self).wf(),
            1 <= old(self).at() <= old(self).tokens.len() + 1,
        ensures
            final(self).wf(),
            final(self).tokens@ == old(self).tokens@,
            match spec_fn_args(old(self).toks(), old(self).at(), seq![]) {
                Ok((a, j)) => match r {
                    Ok(v) => strings_view(v@) == a && final(self).at() == j,
                    Err(_) => false,
                },
                Err(e) => r == Err::<Vec<String>, ParseError>(e),
            },
            r is Ok ==> old(self).at() <= final(self).at() <= old(self).tokens.len() + 1,
    {
        let ghost t = self.toks();
        let ghost len = self.tokens.len() as int;
        let ghost i0 = self.at();
        let mut args: Vec<String> = Vec::new();
        assert(strings_view(args@) =~= seq![]);
        loop
            invariant_except_break
                self.wf(),
                self.tokens@ == old(self).tokens@,
                t == self.toks(),
                t == old(self).toks(),
                i0 == old(self).at(),
                len == self.tokens.len(),
                len == old(self).tokens.len(),
                i0 <= self.at() <= len + 1,
                spec_fn_args(t, self.at(), strings_view(args@)) == spec_fn_args(t, i0, seq![]),
            ensures
                self.wf(),
                self.tokens@ == old(self).tokens@,
                i0 <= self.at() <= len + 1,
                spec_fn_args(t, i0, seq![]) == Ok::<(Seq<Seq<char>>, int), ParseError>(
                    (strings_view(args@), self.at()),
                ),
            decreases len + 2 - self.at(),
        {
            if self.current_is_type(TokenType::RParen) || self.current_is_type(TokenType::Eof) {
                break;
            }
            match self.expect(TokenType::Identifier) {
                Err(e) => return Err(e),
                Ok(()) => {},
            }
            let ghost before = args@;
            args.push(self.current.data.clone());
            assert(strings_view(args@) =~= strings_view(before).push(self.current.data@));
            self.advance();
            if self.current_is_type(TokenType::RParen) {
                self.advance();
                break;
            }
            match self.expect(TokenType::Comma) {
                Err(e) => return Err(e),
                Ok(()) => {},
            }
            self.advance();
        }
        Ok(args)
    }

    fn parse_fn(&mut self) -> (r: Result<Node, ParseError>)
        requires
            old(self).wf(),
            1 <= old(self).at() <= old(self).tokens.len(),
        ensures
            final(self).wf(),
            final(self).tokens@ == old(self).tokens@,
            node_res(r, spec_parse_fn(old(self).toks(), old(self).at()), final(self).at()),
            r is Ok ==> old(self).at() < final(self).at() <= bound(
                old(self).tokens.len() as int,
                old(self).at(),
            ),
        decreases msr(old(self).tokens.len() as int, old(self).at()), 4nat,
    {
        let start = self.here_pos();
        self.advance();
        match self.ensure_not_eof() {
            Err(e) => return Err(e),
            Ok(()) => {},
        }
        let name = self.current.data.clone();
        self.advance();
        match self.expect(TokenType::LParen) {
            Err(e) => return Err(e),
            Ok(()) => {},
        }
        self.advance();
        let args = match self.parse_fn_args() {
            Err(e) => return Err(e),
            Ok(a) => a,
        };
        match self.expect(TokenType::LCurly) {
            Err(e) => return Err(e),
            Ok(()) => {},
        }
        self.advance();
        self.skip_newlines();
        let code = match self.block(false) {
            Err(e) => return Err(e),
            Ok(c) => c,
        };
        self.skip_newlines();
        match self.expect(TokenType::RCurly) {
            Err(e) => return Err(e),
            Ok(()) => {},
        }
        self.advance();
        let end = self.here_pos();
        Ok(Node::new(start, end, NodeData::Function(FunctionNode { name, args, code })))
    }

    fn parse_return(&mut self) -> (r: Result<Node, ParseError>)
        requires
            old(self).wf(),
            1 <= old(self).at() <= old(self).tokens.len(),
        ensures
            final(self).wf(),
            final(self).tokens@ == old(self).tokens@,
            node_res(r, spec_parse_return(old(self).toks(), old(self).at()), final(self).at()),
            r is Ok ==> old(self).at() < final(self).at() <= bound(
                old(self).tokens.len() as int,
                old(self).at(),
            ),
        decreases msr(old(self).tokens.len() as int, old(self).at()), 4nat,
    {
        self.advance();
        let expr = match self.expr(Precedence::Lowest) {
            Err(e) => return Err(e),
            Ok(n) => n,
        };
        let start = expr.start;
        let end = self.here_pos();
        Ok(Node::new(start, end, NodeData::Return(Box::new(ReturnNode { expr }))))
    }

    fn parse_class(&mut self) -> (r: Result<Node, ParseError>)
        requires
            old(self).wf(),
            1 <= old(self).at() <= old(self).tokens.len(),
        ensures
            final(self).wf(),
            final(self).tokens@ == old(self).tokens@,
            node_res(r, spec_parse_class(old(self).toks(), old(self).at()), final(self).at()),
            r is Ok ==> old(self).at() < final(self).at() <= bound(
                old(self).tokens.len() as int,
                old(self).at(),
            ),
        decreases msr(old(self).tokens.len() as int, old(self).at()), 4nat,
    {
        let start = self.here_pos();
        self.advance();
        match self.ensure_not_eof() {
            Err(e) => return Err(e),
            Ok(()) => {},
        }
        let name = self.current.data.clone();
        self.advance();
        match self.expect(TokenType::LCurly) {
            Err(e) => return Err(e),
            Ok(()) => {},
        }
        self.advance();
        self.skip_newlines();
        if !self.current_is_type(TokenType::Keyword) && !is_word_fn(&self.current.data) {
            return Err(
                self.raise_error(
                    ErrorType::UnexpectedToken,
                    ErrorDetail::Expected { expected: TokenType::Keyword, got: self.current.tp },
                ),
            );
        }
        let code = match self.block(true) {
            Err(e) => return Err(e),
            Ok(c) => c,
        };
        self.skip_newlines();
        match self.expect(TokenType::RCurly) {
            Err(e) => return Err(e),
            Ok(()) => {},
        }
        self.advance();
        let end = self.here_pos();
        Ok(Node::new(start, end, NodeData::Class(ClassNode { name, methods: code })))
    }

    /// The statements of the whole token sequence.
    pub fn generate_ast(&mut self) -> (r: Result<Vec<Node>, ParseError>)
        requires
            old(self).wf(),
            old(self).at() == 1,
        ensures
            match spec_generate_ast(old(self).toks()) {
                Ok(ns) => match r {
                    Ok(v) => nodes_view(v@) == ns,
                    Err(_) => false,
                },
                Err(e) => r == Err::<Vec<Node>, ParseError>(e),
            },
    {
        self.block(false)
    }
}

fn prec_num_exec(p: Precedence) -> (n: u8)
    ensures
        n == prec_num(p),
{
    match p {
        Precedence::Lowest => 0,
        Precedence::Sum => 1,
        Precedence::Product => 2,
    }
}


// ---------------------------------------------------------------------------
// Operators of one precedence associate to the left.

pub open spec fn is_operator_tp(tp: TokenType) -> bool {
    tp == TokenType::Plus || tp == TokenType::Hyphen || tp == TokenType::Asterisk || tp == TokenType::Slash
}

/// The shape `a op1 b op2 c` of number tokens and operators of one
/// precedence, starting at the token before index `i` and followed by the
/// end of the text or of the line.
pub open spec fn chain_of_three(toks: Seq<SToken>, i: int) -> bool {
    &&& 1 <= i
    &&& i + 3 < toks.len()
    &&& tok(toks, i - 1).tp == TokenType::Decimal
    &&& tok(toks, i + 1).tp == TokenType::Decimal
    &&& tok(toks, i + 3).tp == TokenType::Decimal
    &&& is_operator_tp(tok(toks, i).tp)
    &&& is_operator_tp(tok(toks, i + 2).tp)
    &&& token_precedence(tok(toks, i).tp) == token_precedence(tok(toks, i + 2).tp)
    &&& (tok(toks, i + 4).tp == TokenType::Eof || tok(toks, i + 4).tp == TokenType::Newline)
}

/// `n` is `(x o1 y) o2 z` for numbers `x`, `y`, `z`.
pub open spec fn grouped_left(n: SNode, x: Seq<char>, o1: OpType, y: Seq<char>, o2: OpType, z: Seq<char>) -> bool {
    match n.kind {
        SKind::Binary(l, r, op) => op == o2 && r.kind == SKind::Decimal(z) && match l.kind {
            SKind::Binary(ll, lr, op1) => op1 == o1 && ll.kind == SKind::Decimal(x) && lr.kind == SKind::Decimal(y),
            _ => false,
        },
        _ => false,
    }
}

/// Binary operators of one precedence associate to the left: `a op1 b op2 c`
/// parses as `(a op1 b) op2 c`, for `+`, `*` and `/` as the second
/// operator. A second `-` is refused as a trailing atom, since a `-` may
/// also start an operand.
pub proof fn law_operators_associate_left(toks: Seq<SToken>, i: int)
    requires
        chain_of_three(toks, i),
    ensures
        tok(toks, i + 2).tp != TokenType::Hyphen ==> match spec_expr(toks, i, Precedence::Lowest) {
            Ok((n, _)) => grouped_left(
                n,
                tok(toks, i - 1).data,
                token_op(tok(toks, i).tp),
                tok(toks, i + 1).data,
                token_op(tok(toks, i + 2).tp),
                tok(toks, i + 3).data,
            ),
            Err(_) => false,
        },
        tok(toks, i + 2).tp == TokenType::Hyphen ==> match spec_expr(toks, i, Precedence::Lowest) {
            Ok(_) => false,
            Err(e) => e.tp == ErrorType::TrailingAtomics,
        },
{
    let p = token_precedence(tok(toks, i).tp);
    let a = leaf(toks, i, SKind::Decimal(tok(toks, i - 1).data));
    let b = leaf(toks, i + 2, SKind::Decimal(tok(toks, i + 1).data));
    let c = leaf(toks, i + 4, SKind::Decimal(tok(toks, i + 3).data));
    assert(spec_atom(toks, i) == Ok::<(Option<SNode>, int), ParseError>((Some(a), i)));
    assert(spec_atom(toks, i + 2) == Ok::<(Option<SNode>, int), ParseError>((Some(b), i + 2)));
    assert(spec_atom(toks, i + 4) == Ok::<(Option<SNode>, int), ParseError>((Some(c), i + 4)));
    if tok(toks, i + 2).tp != TokenType::Hyphen {
        assert(spec_expr_loop(toks, i + 3, p, b, true, TokenType::Decimal) == Ok::<(SNode, int), ParseError>(
            (b, i + 3),
        ));
        assert(spec_expr(toks, i + 2, p) == Ok::<(SNode, int), ParseError>((b, i + 3)));
        let n1 = SNode {
            start: a.start,
            end: here(toks, i + 2),
            kind: SKind::Binary(Box::new(a), Box::new(b), token_op(tok(toks, i).tp)),
        };
        assert(spec_binary(toks, i + 1, a, p) == Ok::<(SNode, int), ParseError>((n1, i + 3)));
        assert(spec_expr_loop(toks, i + 5, p, c, true, TokenType::Decimal) == Ok::<(SNode, int), ParseError>(
            (c, i + 5),
        ));
        assert(spec_expr(toks, i + 4, p) == Ok::<(SNode, int), ParseError>((c, i + 5)));
        let n2 = SNode {
            start: n1.start,
            end: here(toks, i + 4),
            kind: SKind::Binary(Box::new(n1), Box::new(c), token_op(tok(toks, i + 2).tp)),
        };
        assert(spec_binary(toks, i + 3, n1, p) == Ok::<(SNode, int), ParseError>((n2, i + 5)));
        assert(spec_expr_loop(toks, i + 5, Precedence::Lowest, n2, false, TokenType::Decimal)
            == Ok::<(SNode, int), ParseError>((n2, i + 5)));
        assert(spec_expr_loop(toks, i + 3, Precedence::Lowest, n1, false, TokenType::Decimal)
            == Ok::<(SNode, int), ParseError>((n2, i + 5)));
        assert(spec_expr_loop(toks, i + 1, Precedence::Lowest, a, true, TokenType::Decimal)
            == Ok::<(SNode, int), ParseError>((n2, i + 5)));
    } else {
        let err = perr(toks, i + 3, ErrorType::TrailingAtomics, ErrorDetail::Trailing);
        assert(spec_expr_loop(toks, i + 3, p, b, true, TokenType::Decimal) == Err::<(SNode, int), ParseError>(err));
        assert(spec_expr(toks, i + 2, p) == Err::<(SNode, int), ParseError>(err));
        assert(spec_binary(toks, i + 1, a, p) == Err::<(SNode, int), ParseError>(err));
        assert(spec_expr_loop(toks, i + 1, Precedence::Lowest, a, true, TokenType::Decimal)
            == Err::<(SNode, int), ParseError>(err));
    }
}

} // verus!
