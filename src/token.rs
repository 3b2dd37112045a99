//! The scanner: a single left-to-right pass over the characters of the
//! source that groups them into tokens.
//!
//! Runs are found over character positions; token spans give the byte
//! offsets of those positions in the UTF-8 source.

use crate::chars::{
    alphabetic, delimiter_char, is_alphabetic, is_delimiter_char, is_numeric, is_operator_char,
    is_whitespace, len_utf8, numeric, operator_char, spells, utf8_len, whitespace,
};
use crate::interner::{distinct_strings, intern_table, resolve_spec, Interner, Symbol};
use vstd::prelude::*;
use vstd::std_specs::iter::IteratorSpec;

verus! {

/// What a token is.
#[derive(Clone, Copy, Debug, PartialEq, Eq, Structural)]
pub enum Kind {
    Number(Symbol),
    Text(Symbol),
    Plus,
    Minus,
    Multiply,
    Divide,
    LessThan,
    GreaterThan,
    Equal,
    EqualEqual,
    LessThanOrEqual,
    GreaterThanOrEqual,
    NotEqual,
    ColonEqual,
    ColonColon,
    Arrow,
    And,
    Or,
    Not,
    Comma,
    Dot,
    LParen,
    RParen,
    LBrace,
    RBrace,
    LBracket,
    RBracket,
    If,
    Else,
    For,
    In,
    Return,
    Break,
    Continue,
    Loop,
    Import,
    External,
    Identifier(Symbol),
    Unknown(Symbol),
}

/// A token and the half-open range of source bytes that it covers.
#[derive(Clone, Copy, Debug, PartialEq, Eq)]
pub struct Token {
    pub kind: Kind,
    pub span: (usize, usize),
}

/// The class of a scanned run of characters, before its spelling is looked up.
#[derive(Clone, Copy, Debug, PartialEq, Eq, Structural)]
pub enum Class {
    Word,
    Number,
    Operator,
    Delimiter,
    Text,
    Unknown,
}

/// A scanned run: its class and the half-open range of positions it covers.
#[derive(Clone, Copy, Debug, PartialEq, Eq, Structural)]
pub struct Lexeme {
    pub class: Class,
    pub start: usize,
    pub end: usize,
}

/// The scanner's state; an accumulating state holds the position where its
/// run began.
#[derive(Clone, Copy, Debug, PartialEq, Eq, Structural)]
pub enum ScanState {
    Start,
    InNumber(usize),
    InDecimal(usize),
    InIdentifier(usize),
    InOperator(usize),
    InText(usize),
    InComment(usize),
    InUnknown(usize),
    Eof,
}

/// The run that an accumulating state holds, with the position it began at.
pub open spec fn pending(st: ScanState) -> Option<(Class, usize)> {
    match st {
        ScanState::InNumber(b) => Some((Class::Number, b)),
        ScanState::InDecimal(b) => Some((Class::Number, b)),
        ScanState::InIdentifier(b) => Some((Class::Word, b)),
        ScanState::InOperator(b) => Some((Class::Operator, b)),
        ScanState::InText(b) => Some((Class::Text, b)),
        ScanState::InUnknown(b) => Some((Class::Unknown, b)),
        _ => None,
    }
}

/// Characters that end a run of unknown characters.
pub open spec fn unknown_stop(c: char, ws: bool, alpha: bool, num: bool) -> bool {
    alpha || num || ws || operator_char(c) || delimiter_char(c) || c == '"' || c == ';'
}

/// The run of `class` from `start` up to `end`.
pub open spec fn run(class: Class, start: usize, end: int) -> Lexeme {
    Lexeme { class, start, end: end as usize }
}

/// One move of the scanner on character `c` at position `i`, given whether
/// `c` is whitespace (`ws`), alphabetic (`alpha`) and numeric (`num`): the
/// next state, the next position, and the run it completes, if any.
pub open spec fn step_by(st: ScanState, c: char, i: int, ws: bool, alpha: bool, num: bool) -> (
    ScanState,
    int,
    Option<Lexeme>,
) {
    match st {
        ScanState::Start => {
            if ws {
                (ScanState::Start, i + 1, None)
            } else if alpha || c == '_' {
                (ScanState::InIdentifier(i as usize), i + 1, None)
            } else if num {
                (ScanState::InNumber(i as usize), i + 1, None)
            } else if operator_char(c) {
                (ScanState::InOperator(i as usize), i + 1, None)
            } else if delimiter_char(c) {
                (ScanState::Start, i + 1, Some(run(Class::Delimiter, i as usize, i + 1)))
            } else if c == '"' {
                (ScanState::InText(i as usize), i + 1, None)
            } else if c == ';' {
                (ScanState::InComment(i as usize), i + 1, None)
            } else {
                (ScanState::InUnknown(i as usize), i + 1, None)
            }
        },
        ScanState::InIdentifier(b) => {
            if alpha || num || c == '_' {
                (st, i + 1, None)
            } else {
                (ScanState::Start, i, Some(run(Class::Word, b, i)))
            }
        },
        ScanState::InNumber(b) => {
            if c == '.' {
                (ScanState::InDecimal(b), i + 1, None)
            } else if num {
                (st, i + 1, None)
            } else {
                (ScanState::Start, i, Some(run(Class::Number, b, i)))
            }
        },
        ScanState::InDecimal(b) => {
            if num {
                (st, i + 1, None)
            } else {
                (ScanState::Start, i, Some(run(Class::Number, b, i)))
            }
        },
        ScanState::InOperator(b) => {
            if operator_char(c) {
                (st, i + 1, None)
            } else {
                (ScanState::Start, i, Some(run(Class::Operator, b, i)))
            }
        },
        ScanState::InText(b) => {
            if c == '"' {
                (ScanState::Start, i + 1, Some(run(Class::Text, b, i + 1)))
            } else {
                (st, i + 1, None)
            }
        },
        ScanState::InComment(b) => {
            if c == '\n' {
                (ScanState::Start, i + 1, None)
            } else {
                (st, i + 1, None)
            }
        },
        ScanState::InUnknown(b) => {
            if unknown_stop(c, ws, alpha, num) {
                (ScanState::Start, i, Some(run(Class::Unknown, b, i)))
            } else {
                (st, i + 1, None)
            }
        },
        ScanState::Eof => (ScanState::Eof, i + 1, None),
    }
}

/// One move of the scanner on the character at position `i` of `s`.
pub open spec fn step(s: Seq<char>, st: ScanState, i: int) -> (ScanState, int, Option<Lexeme>) {
    let c = s[i];
    step_by(st, c, i, whitespace(c), alphabetic(c), numeric(c))
}

/// At the end of the input an accumulating state gives up its run.
pub open spec fn flush(st: ScanState, n: int) -> Seq<Lexeme> {
    match pending(st) {
        Some(p) => seq![run(p.0, p.1, n)],
        None => Seq::empty(),
    }
}

/// Orders the states for termination: a move that reads no character goes
/// from an accumulating state to `Start`, or from `Start` to `Eof`.
pub open spec fn rank(st: ScanState) -> int {
    match st {
        ScanState::Eof => 0,
        ScanState::Start => 1,
        _ => 2,
    }
}

/// The runs that the scanner produces from state `st` at position `i` on.
pub open spec fn lex_from(s: Seq<char>, st: ScanState, i: int) -> Seq<Lexeme>
    decreases s.len() - i, rank(st),
{
    if st is Eof {
        Seq::empty()
    } else if i < 0 || i >= s.len() {
        flush(st, s.len() as int)
    } else {
        let (st2, i2, out) = step(s, st, i);
        let rest = lex_from(s, st2, i2);
        match out {
            Some(l) => seq![l] + rest,
            None => rest,
        }
    }
}

/// The runs of the whole of `s`.
pub open spec fn lex(s: Seq<char>) -> Seq<Lexeme> {
    lex_from(s, ScanState::Start, 0)
}

/// The keyword spelled by `w`, if any.
pub open spec fn keyword_of(w: Seq<char>) -> Option<Kind> {
    if w == "if"@ {
        Some(Kind::If)
    } else if w == "else"@ {
        Some(Kind::Else)
    } else if w == "for"@ {
        Some(Kind::For)
    } else if w == "in"@ {
        Some(Kind::In)
    } else if w == "import"@ {
        Some(Kind::Import)
    } else if w == "and"@ {
        Some(Kind::And)
    } else if w == "or"@ {
        Some(Kind::Or)
    } else if w == "not"@ {
        Some(Kind::Not)
    } else if w == "return"@ {
        Some(Kind::Return)
    } else if w == "break"@ {
        Some(Kind::Break)
    } else if w == "continue"@ {
        Some(Kind::Continue)
    } else if w == "loop"@ {
        Some(Kind::Loop)
    } else if w == "external"@ {
        Some(Kind::External)
    } else {
        None
    }
}

/// The operator spelled by `w`, if any.
pub open spec fn operator_of(w: Seq<char>) -> Option<Kind> {
    if w == "+"@ {
        Some(Kind::Plus)
    } else if w == "-"@ {
        Some(Kind::Minus)
    } else if w == "*"@ {
        Some(Kind::Multiply)
    } else if w == "/"@ {
        Some(Kind::Divide)
    } else if w == "<"@ {
        Some(Kind::LessThan)
    } else if w == ">"@ {
        Some(Kind::GreaterThan)
    } else if w == "="@ {
        Some(Kind::Equal)
    } else if w == "<="@ {
        Some(Kind::LessThanOrEqual)
    } else if w == ">="@ {
        Some(Kind::GreaterThanOrEqual)
    } else if w == "=="@ {
        Some(Kind::EqualEqual)
    } else if w == "!="@ {
        Some(Kind::NotEqual)
    } else if w == ":="@ {
        Some(Kind::ColonEqual)
    } else if w == "::"@ {
        Some(Kind::ColonColon)
    } else if w == "->"@ {
        Some(Kind::Arrow)
    } else if w == ","@ {
        Some(Kind::Comma)
    } else if w == "."@ {
        Some(Kind::Dot)
    } else {
        None
    }
}

/// The token of a delimiter character.
pub open spec fn delimiter_kind(c: char) -> Kind {
    if c == '(' {
        Kind::LParen
    } else if c == ')' {
        Kind::RParen
    } else if c == '{' {
        Kind::LBrace
    } else if c == '}' {
        Kind::RBrace
    } else if c == '[' {
        Kind::LBracket
    } else {
        Kind::RBracket
    }
}

/// The byte offset of character position `i` of `s` in its UTF-8 encoding.
pub open spec fn byte_pos(s: Seq<char>, i: int) -> int
    decreases i,
{
    if i <= 0 {
        0
    } else {
        byte_pos(s, i - 1) + utf8_len(s[i - 1])
    }
}

/// `sym` is the symbol of `w` in the table `t`.
pub open spec fn names(t: Seq<Seq<char>>, sym: Symbol, w: Seq<char>) -> bool {
    (sym as int) < t.len() && t[sym as int] == w
}

/// The characters of a run.
pub open spec fn text_of(s: Seq<char>, l: Lexeme) -> Seq<char> {
    s.subrange(l.start as int, l.end as int)
}

/// The string that a run puts in the interner: none for keywords, known
/// operators and delimiters, its own characters for everything else.
pub open spec fn interned_text(s: Seq<char>, l: Lexeme) -> Option<Seq<char>> {
    let w = text_of(s, l);
    match l.class {
        Class::Word => if keyword_of(w) is Some { None } else { Some(w) },
        Class::Operator => if operator_of(w) is Some { None } else { Some(w) },
        Class::Delimiter => None,
        _ => Some(w),
    }
}

/// `tok` is the token of run `l` of `s`, with its symbols in table `t`.
pub open spec fn token_matches(tok: Token, l: Lexeme, s: Seq<char>, t: Seq<Seq<char>>) -> bool {
    let w = text_of(s, l);
    &&& tok.span == (byte_pos(s, l.start as int) as usize, byte_pos(s, l.end as int) as usize)
    &&& match l.class {
        Class::Word => match keyword_of(w) {
            Some(k) => tok.kind == k,
            None => tok.kind is Identifier && names(t, tok.kind->Identifier_0, w),
        },
        Class::Operator => match operator_of(w) {
            Some(k) => tok.kind == k,
            None => tok.kind is Unknown && names(t, tok.kind->Unknown_0, w),
        },
        Class::Delimiter => tok.kind == delimiter_kind(s[l.start as int]),
        Class::Number => tok.kind is Number && names(t, tok.kind->Number_0, w),
        Class::Text => tok.kind is Text && names(t, tok.kind->Text_0, w),
        Class::Unknown => tok.kind is Unknown && names(t, tok.kind->Unknown_0, w),
    }
}

/// The interner's table after the runs `ls` have been turned into tokens.
pub open spec fn table_of(s: Seq<char>, ls: Seq<Lexeme>) -> Seq<Seq<char>>
    decreases ls.len(),
{
    if ls.len() == 0 {
        Seq::empty()
    } else {
        let t = table_of(s, ls.drop_last());
        match interned_text(s, ls.last()) {
            Some(w) => intern_table(t, w),
            None => t,
        }
    }
}

/// `toks` are the tokens of the runs `ls` of `s`, with symbols in `t`.
pub open spec fn tokens_match(toks: Seq<Token>, ls: Seq<Lexeme>, s: Seq<char>, t: Seq<Seq<char>>) -> bool {
    &&& toks.len() == ls.len()
    &&& forall|k: int| 0 <= k < ls.len() ==> #[trigger] token_matches(toks[k], ls[k], s, t)
}

/// The symbol a token carries, if its kind has one.
pub open spec fn symbol_of(k: Kind) -> Option<Symbol> {
    match k {
        Kind::Number(a) => Some(a),
        Kind::Text(a) => Some(a),
        Kind::Identifier(a) => Some(a),
        Kind::Unknown(a) => Some(a),
        _ => None,
    }
}

/// In the tokens of a scan, every symbol resolves to the characters of its
/// own token, and two tokens carry the same symbol exactly when they have
/// the same characters.
pub proof fn lemma_token_symbols(s: Seq<char>, toks: Seq<Token>, t: Seq<Seq<char>>)
    requires
        tokens_match(toks, lex(s), s, t),
        distinct_strings(t),
    ensures
        forall|k: int|
            0 <= k < toks.len() && #[trigger] symbol_of(toks[k].kind) is Some ==> resolve_spec(
                t,
                symbol_of(toks[k].kind)->0 as int,
            ) == Some(text_of(s, lex(s)[k])),
        forall|k: int, j: int|
            0 <= k < toks.len() && 0 <= j < toks.len() && #[trigger] symbol_of(toks[k].kind) is Some
                && #[trigger] symbol_of(toks[j].kind) is Some ==> (symbol_of(toks[k].kind)
                == symbol_of(toks[j].kind) <==> text_of(s, lex(s)[k]) == text_of(s, lex(s)[j])),
{
    let ls = lex(s);
    assert forall|k: int| 0 <= k < toks.len() && #[trigger] symbol_of(toks[k].kind) is Some implies names(
        t,
        symbol_of(toks[k].kind)->0,
        text_of(s, ls[k]),
    ) by {
        assert(token_matches(toks[k], ls[k], s, t));
    }
    assert forall|k: int, j: int|
        0 <= k < toks.len() && 0 <= j < toks.len() && #[trigger] symbol_of(toks[k].kind) is Some
            && #[trigger] symbol_of(toks[j].kind) is Some implies (symbol_of(toks[k].kind)
        == symbol_of(toks[j].kind) <==> text_of(s, ls[k]) == text_of(s, ls[j])) by {
        let a = symbol_of(toks[k].kind)->0 as int;
        let b = symbol_of(toks[j].kind)->0 as int;
        assert(names(t, a as Symbol, text_of(s, ls[k])));
        assert(names(t, b as Symbol, text_of(s, ls[j])));
        if text_of(s, ls[k]) == text_of(s, ls[j]) && a != b {
            if a < b {
                assert(t[a] != t[b]);
            } else {
                assert(t[b] != t[a]);
            }
        }
    }
}

fn keyword(chars: &Vec<char>, start: usize, end: usize) -> (r: Option<Kind>)
    requires
        start <= end <= chars@.len(),
    ensures
        r == keyword_of(chars@.subrange(start as int, end as int)),
{
    if spells(chars, start, end, "if") {
        Some(Kind::If)
    } else if spells(chars, start, end, "else") {
        Some(Kind::Else)
    } else if spells(chars, start, end, "for") {
        Some(Kind::For)
    } else if spells(chars, start, end, "in") {
        Some(Kind::In)
    } else if spells(chars, start, end, "import") {
        Some(Kind::Import)
    } else if spells(chars, start, end, "and") {
        Some(Kind::And)
    } else if spells(chars, start, end, "or") {
        Some(Kind::Or)
    } else if spells(chars, start, end, "not") {
        Some(Kind::Not)
    } else if spells(chars, start, end, "return") {
        Some(Kind::Return)
    } else if spells(chars, start, end, "break") {
        Some(Kind::Break)
    } else if spells(chars, start, end, "continue") {
        Some(Kind::Continue)
    } else if spells(chars, start, end, "loop") {
        Some(Kind::Loop)
    } else if spells(chars, start, end, "external") {
        Some(Kind::External)
    } else {
        None
    }
}

fn operator(chars: &Vec<char>, start: usize, end: usize) -> (r: Option<Kind>)
    requires
        start <= end <= chars@.len(),
    ensures
        r == operator_of(chars@.subrange(start as int, end as int)),
{
    if spells(chars, start, end, "+") {
        Some(Kind::Plus)
    } else if spells(chars, start, end, "-") {
        Some(Kind::Minus)
    } else if spells(chars, start, end, "*") {
        Some(Kind::Multiply)
    } else if spells(chars, start, end, "/") {
        Some(Kind::Divide)
    } else if spells(chars, start, end, "<") {
        Some(Kind::LessThan)
    } else if spells(chars, start, end, ">") {
        Some(Kind::GreaterThan)
    } else if spells(chars, start, end, "=") {
        Some(Kind::Equal)
    } else if spells(chars, start, end, "<=") {
        Some(Kind::LessThanOrEqual)
    } else if spells(chars, start, end, ">=") {
        Some(Kind::GreaterThanOrEqual)
    } else if spells(chars, start, end, "==") {
        Some(Kind::EqualEqual)
    } else if spells(chars, start, end, "!=") {
        Some(Kind::NotEqual)
    } else if spells(chars, start, end, ":=") {
        Some(Kind::ColonEqual)
    } else if spells(chars, start, end, "::") {
        Some(Kind::ColonColon)
    } else if spells(chars, start, end, "->") {
        Some(Kind::Arrow)
    } else if spells(chars, start, end, ",") {
        Some(Kind::Comma)
    } else if spells(chars, start, end, ".") {
        Some(Kind::Dot)
    } else {
        None
    }
}

fn delimiter(c: char) -> (r: Kind)
    ensures
        r == delimiter_kind(c),
{
    if c == '(' {
        Kind::LParen
    } else if c == ')' {
        Kind::RParen
    } else if c == '{' {
        Kind::LBrace
    } else if c == '}' {
        Kind::RBrace
    } else if c == '[' {
        Kind::LBracket
    } else {
        Kind::RBracket
    }
}

/// The characters of `source`, in order.
fn chars_of(source: &str) -> (r: Vec<char>)
    ensures
        r@ == source@,
{
    let mut it = source.chars();
    let mut v: Vec<char> = Vec::new();
    loop
        invariant
            it.remaining() == source@.subrange(v@.len() as int, source@.len() as int),
            v@ == source@.subrange(0, v@.len() as int),
            v@.len() <= source@.len(),
            it.obeys_prophetic_iter_laws(),
        ensures
            v@ == source@,
        decreases source@.len() - v@.len(),
    {
        match it.next() {
            Some(c) => {
                v.push(c);
            },
            None => {
                assert(v@ =~= source@);
                break;
            },
        }
    }
    v
}

/// The byte offset of every character position of `chars`, the end included.
fn offsets_of(chars: &Vec<char>) -> (r: Vec<usize>)
    requires
        chars@.len() <= usize::MAX / 4,
    ensures
        r@.len() == chars@.len() + 1,
        forall|k: int| 0 <= k <= chars@.len() ==> r@[k] == byte_pos(chars@, k),
{
    let mut r: Vec<usize> = Vec::new();
    let mut acc: usize = 0;
    r.push(0);
    let mut k: usize = 0;
    while k < chars.len()
        invariant
            chars@.len() <= usize::MAX / 4,
            k <= chars@.len(),
            r@.len() == k + 1,
            acc == byte_pos(chars@, k as int),
            acc <= 4 * k,
            forall|j: int| 0 <= j <= k ==> r@[j] == byte_pos(chars@, j),
        decreases chars@.len() - k,
    {
        acc = acc + len_utf8(chars[k]);
        k = k + 1;
        r.push(acc);
    }
    r
}

/// Where the characters not yet turned into tokens begin.
pub open spec fn low(st: ScanState, i: int) -> int {
    match pending(st) {
        Some(p) => p.1 as int,
        None => i,
    }
}

/// `st` and `i` are a state and position that a scan of `s` can reach.
pub open spec fn reachable(s: Seq<char>, st: ScanState, i: int) -> bool {
    &&& 0 <= i <= s.len()
    &&& (st is Eof ==> i == s.len())
    &&& low(st, i) <= i
    &&& (pending(st) is Some ==> low(st, i) < i)
}

/// One move of the scanner on character `c` at position `i`, given the
/// character's classes.
pub fn transition(st: ScanState, c: char, i: usize, ws: bool, alpha: bool, num: bool) -> (r: (
    ScanState,
    usize,
    Option<Lexeme>,
))
    requires
        i < usize::MAX,
    ensures
        r.0 == step_by(st, c, i as int, ws, alpha, num).0,
        r.1 as int == step_by(st, c, i as int, ws, alpha, num).1,
        r.2 == step_by(st, c, i as int, ws, alpha, num).2,
{
    match st {
        ScanState::Start => {
            if ws {
                (ScanState::Start, i + 1, None)
            } else if alpha || c == '_' {
                (ScanState::InIdentifier(i), i + 1, None)
            } else if num {
                (ScanState::InNumber(i), i + 1, None)
            } else if is_operator_char(c) {
                (ScanState::InOperator(i), i + 1, None)
            } else if is_delimiter_char(c) {
                (ScanState::Start, i + 1, Some(Lexeme { class: Class::Delimiter, start: i, end: i + 1 }))
            } else if c == '"' {
                (ScanState::InText(i), i + 1, None)
            } else if c == ';' {
                (ScanState::InComment(i), i + 1, None)
            } else {
                (ScanState::InUnknown(i), i + 1, None)
            }
        },
        ScanState::InIdentifier(b) => {
            if alpha || num || c == '_' {
                (st, i + 1, None)
            } else {
                (ScanState::Start, i, Some(Lexeme { class: Class::Word, start: b, end: i }))
            }
        },
        ScanState::InNumber(b) => {
            if c == '.' {
                (ScanState::InDecimal(b), i + 1, None)
            } else if num {
                (st, i + 1, None)
            } else {
                (ScanState::Start, i, Some(Lexeme { class: Class::Number, start: b, end: i }))
            }
        },
        ScanState::InDecimal(b) => {
            if num {
                (st, i + 1, None)
            } else {
                (ScanState::Start, i, Some(Lexeme { class: Class::Number, start: b, end: i }))
            }
        },
        ScanState::InOperator(b) => {
            if is_operator_char(c) {
                (st, i + 1, None)
            } else {
                (ScanState::Start, i, Some(Lexeme { class: Class::Operator, start: b, end: i }))
            }
        },
        ScanState::InText(b) => {
            if c == '"' {
                (ScanState::Start, i + 1, Some(Lexeme { class: Class::Text, start: b, end: i + 1 }))
            } else {
                (st, i + 1, None)
            }
        },
        ScanState::InComment(b) => {
            if c == '\n' {
                (ScanState::Start, i + 1, None)
            } else {
                (st, i + 1, None)
            }
        },
        ScanState::InUnknown(b) => {
            if alpha || num || ws || is_operator_char(c) || is_delimiter_char(c) || c == '"' || c
                == ';' {
                (ScanState::Start, i, Some(Lexeme { class: Class::Unknown, start: b, end: i }))
            } else {
                (st, i + 1, None)
            }
        },
        ScanState::Eof => (ScanState::Eof, i + 1, None),
    }
}

/// One move of the scanner on the character at position `i` of `chars`.
fn advance(chars: &Vec<char>, st: ScanState, i: usize) -> (r: (ScanState, usize, Option<Lexeme>))
    requires
        i < chars@.len() < usize::MAX,
    ensures
        r.0 == step(chars@, st, i as int).0,
        r.1 as int == step(chars@, st, i as int).1,
        r.2 == step(chars@, st, i as int).2,
{
    let c = chars[i];
    transition(st, c, i, is_whitespace(c), is_alphabetic(c), is_numeric(c))
}

/// The token of run `l`, interning its characters where its kind carries a
/// symbol.
fn create_token(
    input: &str,
    chars: &Vec<char>,
    offsets: &Vec<usize>,
    l: Lexeme,
    interner: &mut Interner,
) -> (tok: Token)
    requires
        chars@ == input@,
        offsets@.len() == chars@.len() + 1,
        forall|k: int| 0 <= k <= chars@.len() ==> offsets@[k] == byte_pos(chars@, k),
        l.start <= l.end <= chars@.len(),
        l.class is Delimiter ==> l.start < l.end,
        old(interner).wf(),
        old(interner)@.len() < u32::MAX,
    ensures
        final(interner).wf(),
        final(interner)@ == match interned_text(chars@, l) {
            Some(w) => intern_table(old(interner)@, w),
            None => old(interner)@,
        },
        token_matches(tok, l, chars@, final(interner)@),
{
    let span = (offsets[l.start], offsets[l.end]);
    let kind = match l.class {
        Class::Word => match keyword(chars, l.start, l.end) {
            Some(k) => k,
            None => Kind::Identifier(interner.intern(input.substring_char(l.start, l.end))),
        },
        Class::Operator => match operator(chars, l.start, l.end) {
            Some(k) => k,
            None => Kind::Unknown(interner.intern(input.substring_char(l.start, l.end))),
        },
        Class::Delimiter => delimiter(chars[l.start]),
        Class::Number => Kind::Number(interner.intern(input.substring_char(l.start, l.end))),
        Class::Text => Kind::Text(interner.intern(input.substring_char(l.start, l.end))),
        Class::Unknown => Kind::Unknown(interner.intern(input.substring_char(l.start, l.end))),
    };
    Token { kind, span }
}

/// A scan in progress over one input.
pub struct Parser<'a> {
    input: &'a str,
    chars: Vec<char>,
    offsets: Vec<usize>,
    pos: usize,
    interner: Interner,
    state: ScanState,
    tokens: Vec<Token>,
    done: Ghost<Seq<Lexeme>>,
}

impl<'a> Parser<'a> {
    /// The scan is consistent: the runs completed so far followed by what the
    /// scanner produces from here make up the runs of the whole input, and
    /// the tokens and the interner are those of the completed runs.
    pub closed spec fn wf(&self) -> bool {
        let s = self.chars@;
        &&& s == self.input@
        &&& s.len() < u32::MAX
        &&& s.len() <= usize::MAX / 4
        &&& self.offsets@.len() == s.len() + 1
        &&& forall|k: int| 0 <= k <= s.len() ==> self.offsets@[k] == byte_pos(s, k)
        &&& reachable(s, self.state, self.pos as int)
        &&& self.done@ + lex_from(s, self.state, self.pos as int) == lex(s)
        &&& tokens_match(self.tokens@, self.done@, s, self.interner@)
        &&& self.interner.wf()
        &&& self.interner@ == table_of(s, self.done@)
        &&& self.interner@.len() <= self.tokens@.len()
        &&& self.tokens@.len() <= low(self.state, self.pos as int)
    }

    /// The characters being scanned.
    pub closed spec fn input_view(&self) -> Seq<char> {
        self.input@
    }

    /// The runs turned into tokens so far.
    pub closed spec fn done_runs(&self) -> Seq<Lexeme> {
        self.done@
    }

    /// The scanner's state.
    pub closed spec fn state_of(&self) -> ScanState {
        self.state
    }

    /// The character position of the cursor.
    pub closed spec fn cursor(&self) -> int {
        self.pos as int
    }

    /// The tokens made so far.
    pub closed spec fn tokens_view(&self) -> Seq<Token> {
        self.tokens@
    }

    /// The interner's table.
    pub closed spec fn table(&self) -> Seq<Seq<char>> {
        self.interner@
    }

    /// The scan has reached the end of the input.
    pub closed spec fn finished(&self) -> bool {
        self.state is Eof
    }

    /// Characters left to read, and the rank of the current state.
    pub closed spec fn progress(&self) -> (int, int) {
        (self.chars@.len() - self.pos, rank(self.state))
    }

    /// A scan of `input` that has not read anything yet.
    pub fn new(input: &'a str) -> (r: Self)
        requires
            input@.len() < u32::MAX,
            input@.len() <= usize::MAX / 4,
        ensures
            r.wf(),
            r.input_view() == input@,
            r.done_runs() == Seq::<Lexeme>::empty(),
            !r.finished(),
    {
        let chars = chars_of(input);
        let offsets = offsets_of(&chars);
        let r = Parser {
            input,
            chars,
            offsets,
            pos: 0,
            interner: Interner::new(),
            state: ScanState::Start,
            tokens: Vec::new(),
            done: Ghost(Seq::empty()),
        };
        assert(r.done@ + lex_from(r.chars@, r.state, 0) =~= lex(r.chars@));
        r
    }

    /// The character under the cursor, if any.
    fn peek(&self) -> (r: Option<char>)
        ensures
            r == (if (self.pos as int) < self.chars@.len() {
                Some(self.chars@[self.pos as int])
            } else {
                None
            }),
    {
        if self.pos < self.chars.len() {
            Some(self.chars[self.pos])
        } else {
            None
        }
    }

    /// Turns run `l` into a token and records it.
    fn emit(&mut self, l: Lexeme)
        requires
            old(self).chars@ == old(self).input@,
            old(self).chars@.len() < u32::MAX,
            old(self).offsets@.len() == old(self).chars@.len() + 1,
            forall|k: int|
                0 <= k <= old(self).chars@.len() ==> old(self).offsets@[k] == byte_pos(
                    old(self).chars@,
                    k,
                ),
            l.start < l.end <= old(self).chars@.len(),
            old(self).interner.wf(),
            old(self).interner@.len() <= old(self).tokens@.len(),
            old(self).tokens@.len() <= l.start,
            tokens_match(old(self).tokens@, old(self).done@, old(self).chars@, old(self).interner@),
            old(self).interner@ == table_of(old(self).chars@, old(self).done@),
        ensures
            final(self).input == old(self).input,
            final(self).chars == old(self).chars,
            final(self).offsets == old(self).offsets,
            final(self).pos == old(self).pos,
            final(self).state == old(self).state,
            final(self).done@ == old(self).done@.push(l),
            final(self).interner.wf(),
            final(self).interner@.len() <= final(self).tokens@.len(),
            final(self).tokens@ == old(self).tokens@.push(final(self).tokens@.last()),
            tokens_match(final(self).tokens@, final(self).done@, final(self).chars@, final(self).interner@),
            final(self).interner@ == table_of(final(self).chars@, final(self).done@),
    {
        let ghost s = self.chars@;
        let ghost t0 = self.interner@;
        let tok = create_token(self.input, &self.chars, &self.offsets, l, &mut self.interner);
        self.tokens.push(tok);
        self.done = Ghost(self.done@.push(l));
        proof {
            let t1 = self.interner@;
            assert(self.done@.drop_last() =~= old(self).done@);
            assert forall|k: int| 0 <= k < self.done@.len() implies #[trigger] token_matches(
                self.tokens@[k],
                self.done@[k],
                s,
                t1,
            ) by {
                if k < old(self).done@.len() {
                    assert(token_matches(old(self).tokens@[k], old(self).done@[k], s, t0));
                    assert(self.tokens@[k] == old(self).tokens@[k]);
                }
            }
        }
    }

    /// One move of the scanner: reads at most one character, and at the end
    /// of the input hands over any pending run and stops.
    fn next(&mut self)
        requires
            old(self).wf(),
            !old(self).finished(),
        ensures
            final(self).wf(),
            final(self).input_view() == old(self).input_view(),
            old(self).cursor() < old(self).input_view().len() ==> ({
                let r = step(old(self).input_view(), old(self).state_of(), old(self).cursor());
                &&& final(self).state_of() == r.0
                &&& final(self).cursor() == r.1
                &&& final(self).done_runs() == match r.2 {
                    Some(l) => old(self).done_runs().push(l),
                    None => old(self).done_runs(),
                }
            }),
            old(self).cursor() >= old(self).input_view().len() ==> {
                &&& final(self).state_of() is Eof
                &&& final(self).cursor() == old(self).cursor()
                &&& final(self).done_runs() == old(self).done_runs() + flush(
                    old(self).state_of(),
                    old(self).input_view().len() as int,
                )
            },
            final(self).tokens_view().subrange(0, old(self).tokens_view().len() as int)
                == old(self).tokens_view(),
            tokens_match(
                final(self).tokens_view(),
                final(self).done_runs(),
                final(self).input_view(),
                final(self).table(),
            ),
            final(self).table() == table_of(final(self).input_view(), final(self).done_runs()),
            final(self).progress().0 < old(self).progress().0 || (final(self).progress().0
                == old(self).progress().0 && final(self).progress().1 < old(self).progress().1),
            final(self).progress().0 >= 0,
    {
        let ghost s = self.chars@;
        match self.peek() {
            None => {
                let st = self.state;
                match st {
                    ScanState::InNumber(b) | ScanState::InDecimal(b) => self.emit(
                        Lexeme { class: Class::Number, start: b, end: self.pos },
                    ),
                    ScanState::InIdentifier(b) => self.emit(
                        Lexeme { class: Class::Word, start: b, end: self.pos },
                    ),
                    ScanState::InOperator(b) => self.emit(
                        Lexeme { class: Class::Operator, start: b, end: self.pos },
                    ),
                    ScanState::InText(b) => self.emit(
                        Lexeme { class: Class::Text, start: b, end: self.pos },
                    ),
                    ScanState::InUnknown(b) => self.emit(
                        Lexeme { class: Class::Unknown, start: b, end: self.pos },
                    ),
                    _ => {},
                }
                self.state = ScanState::Eof;
                proof {
                    assert(self.done@ + lex_from(s, self.state, self.pos as int) =~= lex(s));
                }
            },
            Some(_) => {
                let ghost done0 = self.done@;
                let ghost st0 = self.state;
                let ghost pos0 = self.pos as int;
                let (st, pos, out) = advance(&self.chars, self.state, self.pos);
                match out {
                    Some(l) => self.emit(l),
                    None => {},
                }
                self.state = st;
                self.pos = pos;
                proof {
                    assert(self.done@ + lex_from(s, st, pos as int) =~= done0 + lex_from(
                        s,
                        st0,
                        pos0,
                    ));
                }
            },
        }
    }
}

/// Scans `input` into its tokens, together with the interner that holds the
/// spellings their symbols stand for.
pub fn parse(input: &str) -> (r: (Vec<Token>, Interner))
    requires
        input@.len() < u32::MAX,
        input@.len() <= usize::MAX / 4,
    ensures
        r.1.wf(),
        r.1@ == table_of(input@, lex(input@)),
        tokens_match(r.0@, lex(input@), input@, r.1@),
        tiles(input@, lex(input@)),
{
    proof {
        lemma_spans_tile(input@);
    }
    let mut parser = Parser::new(input);
    while parser.state != ScanState::Eof
        invariant
            parser.wf(),
            parser.input_view() == input@,
        decreases parser.progress().0, parser.progress().1,
    {
        parser.next();
    }
    proof {
        assert(parser.done@ =~= parser.done@ + lex_from(parser.chars@, parser.state, parser.pos as int));
    }
    (parser.tokens, parser.interner)
}

/// No run of `ls` covers position `p`.
pub open spec fn uncovered(ls: Seq<Lexeme>, p: int) -> bool {
    forall|k: int| 0 <= k < ls.len() ==> !(ls[k].start <= p < #[trigger] ls[k].end)
}

/// A comment that no run covers begins at `j` and reaches `p`: `s[j]` is a
/// `;` and no newline stands between them.
pub open spec fn comment_from(s: Seq<char>, ls: Seq<Lexeme>, j: int, p: int) -> bool {
    &&& 0 <= j <= p
    &&& s[j] == ';'
    &&& uncovered(ls, j)
    &&& forall|q: int| j < q < p ==> #[trigger] s[q] != '\n'
}

/// The runs `ls` lie in order from `lo` on, each non-empty and within `s`,
/// without overlapping; every position from `lo` on that none covers is
/// whitespace or lies in a comment that begins at `wlo` or later.
pub open spec fn tiles_from(s: Seq<char>, ls: Seq<Lexeme>, lo: int, wlo: int) -> bool {
    &&& forall|k: int| 0 <= k < ls.len() ==> lo <= #[trigger] ls[k].start < ls[k].end <= s.len()
    &&& forall|k: int| 0 <= k < ls.len() - 1 ==> #[trigger] ls[k].end <= ls[k + 1].start
    &&& forall|p: int|
        lo <= p < s.len() && uncovered(ls, p) ==> whitespace(s[p]) || exists|j: int|
            wlo <= j && comment_from(s, ls, j, p)
}

/// The runs `ls` lie in order, each non-empty and within `s`, without
/// overlapping, and every position that none covers is whitespace or lies in
/// a comment that no run covers.
pub open spec fn tiles(s: Seq<char>, ls: Seq<Lexeme>) -> bool {
    tiles_from(s, ls, 0, 0)
}

/// A state inside a comment remembers where the comment began.
pub open spec fn comment_ok(s: Seq<char>, st: ScanState, i: int) -> bool {
    match st {
        ScanState::InComment(b) => b < i && s[b as int] == ';' && forall|q: int|
            b < q < i ==> #[trigger] s[q] != '\n',
        _ => true,
    }
}

/// Where a comment that is still open may have begun.
pub open spec fn comment_low(st: ScanState, i: int) -> int {
    match st {
        ScanState::InComment(b) => b as int,
        _ => low(st, i),
    }
}

proof fn lemma_lex_from_tiles(s: Seq<char>, st: ScanState, i: int)
    requires
        s.len() < usize::MAX,
        reachable(s, st, i),
        comment_ok(s, st, i),
    ensures
        tiles_from(s, lex_from(s, st, i), low(st, i), comment_low(st, i)),
    decreases s.len() - i, rank(st),
{
    let out = lex_from(s, st, i);
    let lo = low(st, i);
    let wlo = comment_low(st, i);
    if st is Eof {
    } else if i >= s.len() {
        assert(out == flush(st, s.len() as int));
        assert forall|p: int| lo <= p < s.len() && uncovered(out, p) implies whitespace(s[p])
            || exists|j: int| wlo <= j && comment_from(s, out, j, p) by {
            if out.len() > 0 {
                assert(!(out[0].start <= p < out[0].end));
            }
        }
    } else {
        let (st2, i2, o) = step(s, st, i);
        lemma_lex_from_tiles(s, st2, i2);
        let rest = lex_from(s, st2, i2);
        let lo2 = low(st2, i2);
        let wlo2 = comment_low(st2, i2);
        match o {
            Some(l) => {
                assert(out == seq![l] + rest);
                assert(lo <= l.start < l.end <= s.len());
                assert(l.end == lo2);
                assert(st2 is Start);
                assert forall|k: int| 0 <= k < out.len() implies lo <= #[trigger] out[k].start
                    < out[k].end <= s.len() by {
                    if k > 0 {
                        assert(out[k] == rest[k - 1]);
                    }
                }
                assert forall|k: int| 0 <= k < out.len() - 1 implies #[trigger] out[k].end
                    <= out[k + 1].start by {
                    if k > 0 {
                        assert(out[k] == rest[k - 1]);
                    }
                }
                assert forall|p: int| lo <= p < s.len() && uncovered(out, p) implies whitespace(
                    s[p],
                ) || exists|j: int| wlo <= j && comment_from(s, out, j, p) by {
                    assert(!(out[0].start <= p < out[0].end));
                    assert forall|k: int| 0 <= k < rest.len() implies !(rest[k].start <= p
                        < #[trigger] rest[k].end) by {
                        assert(out[k + 1] == rest[k]);
                    }
                    assert(p >= lo2);
                    assert(uncovered(rest, p));
                    if !whitespace(s[p]) {
                        let j = choose|j: int| wlo2 <= j && comment_from(s, rest, j, p);
                        assert forall|k: int| 0 <= k < out.len() implies !(out[k].start <= j
                            < #[trigger] out[k].end) by {
                            if k > 0 {
                                assert(out[k] == rest[k - 1]);
                            }
                        }
                        assert(comment_from(s, out, j, p));
                    }
                }
            },
            None => {
                assert(out == rest);
                assert(lo <= lo2);
                assert(wlo <= wlo2);
                assert forall|p: int| lo <= p < s.len() && uncovered(out, p) implies whitespace(
                    s[p],
                ) || exists|j: int| wlo <= j && comment_from(s, out, j, p) by {
                    if p < lo2 {
                        if st is InComment {
                            let b = st->InComment_0 as int;
                            assert(forall|q: int| b < q < p ==> #[trigger] s[q] != '\n');
                            assert(uncovered(out, b));
                            assert(comment_from(s, out, b, p));
                        } else if s[i] == ';' {
                            assert(forall|q: int| i < q < p ==> #[trigger] s[q] != '\n');
                            assert(uncovered(out, i));
                            assert(comment_from(s, out, i, p));
                        }
                    }
                }
            },
        }
    }
}

/// The tokens of one scan lie in order, each non-empty, without overlaps,
/// and the positions that no token covers are whitespace or comment.
pub proof fn lemma_spans_tile(s: Seq<char>)
    requires
        s.len() < usize::MAX,
    ensures
        tiles(s, lex(s)),
{
    lemma_lex_from_tiles(s, ScanState::Start, 0);
}

} // verus!
