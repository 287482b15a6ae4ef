//! Splitting source text into tokens.
use vstd::prelude::*;

use crate::ast::Op;
use crate::display::char_string;
use crate::lower::{ParseErr, ParsingError};

verus! {

/// Punctuation and keywords.
#[derive(PartialEq, Eq, Structural, Clone, Copy, Debug)]
pub enum Sym {
    LParen,
    RParen,
    LBracket,
    RBracket,
    LBrace,
    RBrace,
    Comma,
    Semicolon,
    Equals,
    DoubleColon,
    Arrow,
    Backslash,
    Underscore,
    DotDot,
    If,
    Then,
    Else,
    Let,
    In,
    Case,
    Of,
    Type,
}

/// A token of the surface language.
pub enum Token {
    Int(i64),
    Bool(bool),
    Char(char),
    Str(String),
    /// A name that starts with a lowercase letter or an underscore.
    Name(String),
    /// A name that starts with an uppercase letter.
    Con(String),
    Op(Op),
    Sym(Sym),
}

/// A token, the line it stands on, and whether it starts a declaration (it
/// is the first thing on its line, in the first column).
pub struct Tok {
    pub token: Token,
    pub line: usize,
    pub starts_decl: bool,
}

/// Mathematical model of a token.
pub enum TokenModel {
    Int(i64),
    Bool(bool),
    Char(char),
    Str(Seq<char>),
    Name(Seq<char>),
    Con(Seq<char>),
    Op(Op),
    Sym(Sym),
}

impl View for Token {
    type V = TokenModel;

    open spec fn view(&self) -> TokenModel {
        match self {
            Token::Int(i) => TokenModel::Int(*i),
            Token::Bool(b) => TokenModel::Bool(*b),
            Token::Char(c) => TokenModel::Char(*c),
            Token::Str(s) => TokenModel::Str(s@),
            Token::Name(s) => TokenModel::Name(s@),
            Token::Con(s) => TokenModel::Con(s@),
            Token::Op(o) => TokenModel::Op(*o),
            Token::Sym(y) => TokenModel::Sym(*y),
        }
    }
}

/// A token with its line and whether it starts a declaration.
pub type TokModel = (TokenModel, nat, bool);

impl View for Tok {
    type V = TokModel;

    open spec fn view(&self) -> TokModel {
        (self.token@, self.line as nat, self.starts_decl)
    }
}

pub open spec fn is_digit(c: char) -> bool {
    '0' <= c && c <= '9'
}

pub open spec fn starts_word(c: char) -> bool {
    ('a' <= c && c <= 'z') || c == '_' || ('A' <= c && c <= 'Z')
}

pub open spec fn in_word(c: char) -> bool {
    starts_word(c) || is_digit(c) || c == '\''
}

/// The end of the word that continues at `j`.
pub open spec fn word_end(cs: Seq<char>, j: nat) -> nat
    decreases cs.len() - j,
{
    if j < cs.len() && in_word(cs[j as int]) {
        word_end(cs, j + 1)
    } else {
        j
    }
}

/// The position of the next newline from `j`, or the end.
pub open spec fn line_end(cs: Seq<char>, j: nat) -> nat
    decreases cs.len() - j,
{
    if j < cs.len() && cs[j as int] != '\n' {
        line_end(cs, j + 1)
    } else {
        j
    }
}

/// The position of the next double quote from `j`, or the end.
pub open spec fn quote_end(cs: Seq<char>, j: nat) -> nat
    decreases cs.len() - j,
{
    if j < cs.len() && cs[j as int] != '"' {
        quote_end(cs, j + 1)
    } else {
        j
    }
}

pub open spec fn digit_value(c: char) -> int {
    c as int - '0' as int
}

/// The value of the digits from `j` on, added to `v` already read, and
/// where they end; none if it does not fit in 64 bits.
pub open spec fn scan_number(cs: Seq<char>, j: nat, v: i64) -> Option<(i64, nat)>
    decreases cs.len() - j,
{
    if j < cs.len() && is_digit(cs[j as int]) {
        let d = digit_value(cs[j as int]);
        if v > (i64::MAX - d) / 10 {
            Option::None
        } else {
            scan_number(cs, j + 1, (v * 10 + d) as i64)
        }
    } else {
        Option::Some((v, j))
    }
}

/// The token of a word that starts with a lowercase letter or an underscore.
pub open spec fn word_token(w: Seq<char>) -> TokenModel {
    if w == "if"@ {
        TokenModel::Sym(Sym::If)
    } else if w == "then"@ {
        TokenModel::Sym(Sym::Then)
    } else if w == "else"@ {
        TokenModel::Sym(Sym::Else)
    } else if w == "let"@ {
        TokenModel::Sym(Sym::Let)
    } else if w == "in"@ {
        TokenModel::Sym(Sym::In)
    } else if w == "case"@ {
        TokenModel::Sym(Sym::Case)
    } else if w == "of"@ {
        TokenModel::Sym(Sym::Of)
    } else if w == "type"@ {
        TokenModel::Sym(Sym::Type)
    } else if w == "_"@ {
        TokenModel::Sym(Sym::Underscore)
    } else {
        TokenModel::Name(w)
    }
}

/// The token of a word that starts with an uppercase letter.
pub open spec fn upper_token(w: Seq<char>) -> TokenModel {
    if w == "True"@ {
        TokenModel::Bool(true)
    } else if w == "False"@ {
        TokenModel::Bool(false)
    } else {
        TokenModel::Con(w)
    }
}

pub open spec fn two_char_spec(a: char, b: char) -> Option<TokenModel> {
    if a == '-' && b == '>' {
        Option::Some(TokenModel::Sym(Sym::Arrow))
    } else if a == ':' && b == ':' {
        Option::Some(TokenModel::Sym(Sym::DoubleColon))
    } else if a == '=' && b == '=' {
        Option::Some(TokenModel::Op(Op::Eq))
    } else if a == '/' && b == '=' {
        Option::Some(TokenModel::Op(Op::Neq))
    } else if a == '<' && b == '=' {
        Option::Some(TokenModel::Op(Op::Le))
    } else if a == '>' && b == '=' {
        Option::Some(TokenModel::Op(Op::Ge))
    } else if a == '&' && b == '&' {
        Option::Some(TokenModel::Op(Op::And))
    } else if a == '|' && b == '|' {
        Option::Some(TokenModel::Op(Op::Or))
    } else if a == '+' && b == '+' {
        Option::Some(TokenModel::Op(Op::Append))
    } else if a == '.' && b == '.' {
        Option::Some(TokenModel::Sym(Sym::DotDot))
    } else {
        Option::None
    }
}

pub open spec fn one_char_spec(a: char) -> Option<TokenModel> {
    if a == '(' {
        Option::Some(TokenModel::Sym(Sym::LParen))
    } else if a == ')' {
        Option::Some(TokenModel::Sym(Sym::RParen))
    } else if a == '[' {
        Option::Some(TokenModel::Sym(Sym::LBracket))
    } else if a == ']' {
        Option::Some(TokenModel::Sym(Sym::RBracket))
    } else if a == '{' {
        Option::Some(TokenModel::Sym(Sym::LBrace))
    } else if a == '}' {
        Option::Some(TokenModel::Sym(Sym::RBrace))
    } else if a == ',' {
        Option::Some(TokenModel::Sym(Sym::Comma))
    } else if a == ';' {
        Option::Some(TokenModel::Sym(Sym::Semicolon))
    } else if a == '=' {
        Option::Some(TokenModel::Sym(Sym::Equals))
    } else if a == '\\' {
        Option::Some(TokenModel::Sym(Sym::Backslash))
    } else if a == '+' {
        Option::Some(TokenModel::Op(Op::Add))
    } else if a == '-' {
        Option::Some(TokenModel::Op(Op::Sub))
    } else if a == '*' {
        Option::Some(TokenModel::Op(Op::Mul))
    } else if a == '/' {
        Option::Some(TokenModel::Op(Op::Div))
    } else if a == '<' {
        Option::Some(TokenModel::Op(Op::Lt))
    } else if a == '>' {
        Option::Some(TokenModel::Op(Op::Gt))
    } else if a == ':' {
        Option::Some(TokenModel::Op(Op::Cons))
    } else {
        Option::None
    }
}

pub open spec fn syntax_err(line: nat, what: Seq<char>) -> ParseErr {
    ParseErr::SyntaxError(line, what)
}

/// One step of the tokenizer at position `i`: the token it produces, if
/// any, the next position, line and start-of-line flag.
pub open spec fn lex_step(cs: Seq<char>, i: nat, line: nat, at_start: bool) -> Result<
    (Option<TokenModel>, nat, nat, bool),
    ParseErr,
> {
    let c = cs[i as int];
    if c == '\n' {
        Ok((Option::None, i + 1, if line < usize::MAX { line + 1 } else { line }, true))
    } else if c == ' ' || c == '\t' || c == '\r' {
        Ok((Option::None, i + 1, line, false))
    } else if c == '-' && i + 1 < cs.len() && cs[(i + 1) as int] == '-' {
        Ok((Option::None, line_end(cs, i + 2), line, false))
    } else if is_digit(c) {
        match scan_number(cs, i + 1, digit_value(c) as i64) {
            Option::Some((v, j)) => Ok((Option::Some(TokenModel::Int(v)), j, line, false)),
            Option::None => Err(syntax_err(line, "an integer that fits in 64 bits"@)),
        }
    } else if c == '\'' {
        if i + 2 < cs.len() && cs[(i + 2) as int] == '\'' {
            Ok((Option::Some(TokenModel::Char(cs[(i + 1) as int])), i + 3, line, false))
        } else {
            Err(syntax_err(line, "a character literal"@))
        }
    } else if c == '"' {
        let j = quote_end(cs, i + 1);
        if j >= cs.len() {
            Err(syntax_err(line, "a closing quote"@))
        } else {
            Ok((Option::Some(TokenModel::Str(cs.subrange((i + 1) as int, j as int))), j + 1, line, false))
        }
    } else if starts_word(c) {
        let j = word_end(cs, i + 1);
        let w = cs.subrange(i as int, j as int);
        Ok((Option::Some(if 'A' <= c && c <= 'Z' { upper_token(w) } else { word_token(w) }), j, line, false))
    } else if c == '`' {
        if i + 4 < cs.len() && cs.subrange(i as int, (i + 5) as int) == "`mod`"@ {
            Ok((Option::Some(TokenModel::Op(Op::Mod)), i + 5, line, false))
        } else {
            Err(syntax_err(line, "`mod`"@))
        }
    } else if i + 1 < cs.len() && two_char_spec(c, cs[(i + 1) as int]) is Some {
        Ok((two_char_spec(c, cs[(i + 1) as int]), i + 2, line, false))
    } else if one_char_spec(c) is Some {
        Ok((one_char_spec(c), i + 1, line, false))
    } else {
        Err(syntax_err(line, "a token"@))
    }
}

/// The tokens from position `i` on; each step spends one unit of `k`.
pub open spec fn lex(cs: Seq<char>, i: nat, line: nat, at_start: bool, k: nat) -> Result<Seq<TokModel>, ParseErr>
    decreases k,
{
    if i >= cs.len() || k == 0 {
        Ok(Seq::empty())
    } else {
        match lex_step(cs, i, line, at_start) {
            Ok((t, j, line2, s2)) => match lex(cs, j, line2, s2, (k - 1) as nat) {
                Ok(rest) => Ok(
                    match t {
                        Option::Some(t) => seq![(t, line, at_start)] + rest,
                        Option::None => rest,
                    },
                ),
                Err(e) => Err(e),
            },
            Err(e) => Err(e),
        }
    }
}

/// The tokens of a source text.
pub open spec fn tokens_of(s: Seq<char>) -> Result<Seq<TokModel>, ParseErr> {
    lex(s, 0, 1, true, s.len() + 1)
}


/// Relies on `str::chars`: the characters of the string, in order, gathered
/// into a vector.
#[verifier::external_body]
fn chars_of(s: &str) -> (r: Vec<char>)
    ensures
        r@ == s@,
{
    s.chars().collect()
}

fn string_of(cs: &Vec<char>, start: usize, end: usize) -> (r: String)
    requires
        start <= end <= cs.len(),
    ensures
        r@ == cs@.subrange(start as int, end as int),
{
    let mut s = String::new();
    let mut i = start;
    while i < end
        invariant
            start <= i <= end <= cs.len(),
            s@ == cs@.subrange(start as int, i as int),
        decreases end - i,
    {
        let one = char_string(cs[i]);
        s.append(one.as_str());
        proof {
            assert(s@ =~= cs@.subrange(start as int, i + 1));
        }
        i = i + 1;
    }
    s
}

/// Whether `cs[start..end]` spells `w`.
fn spells(cs: &Vec<char>, start: usize, end: usize, w: &str) -> (r: bool)
    requires
        start <= end <= cs.len(),
    ensures
        r == (cs@.subrange(start as int, end as int) == w@),
{
    let n = w.unicode_len();
    if end - start != n {
        return false;
    }
    let mut i: usize = 0;
    while i < n
        invariant
            i <= n,
            n == w@.len(),
            end - start == n,
            start <= end <= cs.len(),
            forall|j: int| 0 <= j < i ==> cs@[start + j] == w@[j],
        decreases n - i,
    {
        if cs[start + i] != w.get_char(i) {
            proof {
                assert(cs@.subrange(start as int, end as int)[i as int] != w@[i as int]);
            }
            return false;
        }
        i = i + 1;
    }
    proof {
        assert(cs@.subrange(start as int, end as int) =~= w@);
    }
    true
}

fn keyword_or_name(cs: &Vec<char>, start: usize, end: usize) -> (r: Token)
    requires
        start <= end <= cs.len(),
    ensures
        r@ == word_token(cs@.subrange(start as int, end as int)),
{
    if spells(cs, start, end, "if") {
        Token::Sym(Sym::If)
    } else if spells(cs, start, end, "then") {
        Token::Sym(Sym::Then)
    } else if spells(cs, start, end, "else") {
        Token::Sym(Sym::Else)
    } else if spells(cs, start, end, "let") {
        Token::Sym(Sym::Let)
    } else if spells(cs, start, end, "in") {
        Token::Sym(Sym::In)
    } else if spells(cs, start, end, "case") {
        Token::Sym(Sym::Case)
    } else if spells(cs, start, end, "of") {
        Token::Sym(Sym::Of)
    } else if spells(cs, start, end, "type") {
        Token::Sym(Sym::Type)
    } else if spells(cs, start, end, "_") {
        Token::Sym(Sym::Underscore)
    } else {
        Token::Name(string_of(cs, start, end))
    }
}

fn upper_word(cs: &Vec<char>, start: usize, end: usize) -> (r: Token)
    requires
        start <= end <= cs.len(),
    ensures
        r@ == upper_token(cs@.subrange(start as int, end as int)),
{
    if spells(cs, start, end, "True") {
        Token::Bool(true)
    } else if spells(cs, start, end, "False") {
        Token::Bool(false)
    } else {
        Token::Con(string_of(cs, start, end))
    }
}

fn syntax_error(line: usize, what: &str) -> (r: ParsingError)
    ensures
        r@ == syntax_err(line as nat, what@),
{
    ParsingError::SyntaxError(line, String::from_str(what))
}

/// The symbol or operator spelled by the two characters `a b`, if any.
fn two_char_token(a: char, b: char) -> (r: Option<Token>)
    ensures
        opt_token(r) == two_char_spec(a, b),
{
    if a == '-' && b == '>' {
        Some(Token::Sym(Sym::Arrow))
    } else if a == ':' && b == ':' {
        Some(Token::Sym(Sym::DoubleColon))
    } else if a == '=' && b == '=' {
        Some(Token::Op(Op::Eq))
    } else if a == '/' && b == '=' {
        Some(Token::Op(Op::Neq))
    } else if a == '<' && b == '=' {
        Some(Token::Op(Op::Le))
    } else if a == '>' && b == '=' {
        Some(Token::Op(Op::Ge))
    } else if a == '&' && b == '&' {
        Some(Token::Op(Op::And))
    } else if a == '|' && b == '|' {
        Some(Token::Op(Op::Or))
    } else if a == '+' && b == '+' {
        Some(Token::Op(Op::Append))
    } else if a == '.' && b == '.' {
        Some(Token::Sym(Sym::DotDot))
    } else {
        None
    }
}

/// The symbol or operator spelled by the character `a`, if any.
fn one_char_token(a: char) -> (r: Option<Token>)
    ensures
        opt_token(r) == one_char_spec(a),
{
    if a == '(' {
        Some(Token::Sym(Sym::LParen))
    } else if a == ')' {
        Some(Token::Sym(Sym::RParen))
    } else if a == '[' {
        Some(Token::Sym(Sym::LBracket))
    } else if a == ']' {
        Some(Token::Sym(Sym::RBracket))
    } else if a == '{' {
        Some(Token::Sym(Sym::LBrace))
    } else if a == '}' {
        Some(Token::Sym(Sym::RBrace))
    } else if a == ',' {
        Some(Token::Sym(Sym::Comma))
    } else if a == ';' {
        Some(Token::Sym(Sym::Semicolon))
    } else if a == '=' {
        Some(Token::Sym(Sym::Equals))
    } else if a == '\\' {
        Some(Token::Sym(Sym::Backslash))
    } else if a == '+' {
        Some(Token::Op(Op::Add))
    } else if a == '-' {
        Some(Token::Op(Op::Sub))
    } else if a == '*' {
        Some(Token::Op(Op::Mul))
    } else if a == '/' {
        Some(Token::Op(Op::Div))
    } else if a == '<' {
        Some(Token::Op(Op::Lt))
    } else if a == '>' {
        Some(Token::Op(Op::Gt))
    } else if a == ':' {
        Some(Token::Op(Op::Cons))
    } else {
        None
    }
}

pub open spec fn opt_token(t: Option<Token>) -> Option<TokenModel> {
    match t {
        Option::Some(t) => Option::Some(t@),
        Option::None => Option::None,
    }
}

/// One step of the tokenizer at position `i`.
fn lex_one(cs: &Vec<char>, i: usize, line: usize, at_start: bool) -> (r: Result<(Option<Token>, usize, usize, bool), ParsingError>)
    requires
        i < cs.len(),
    ensures
        match (r, lex_step(cs@, i as nat, line as nat, at_start)) {
            (Ok((t, j, l, s)), Ok((mt, mj, ml, ms))) => opt_token(t) == mt && j as nat == mj && l as nat == ml
                && s == ms && i < j <= cs.len(),
            (Err(a), Err(b)) => a@ == b,
            _ => false,
        },
{
    let c = cs[i];
    if c == '\n' {
        let l = if line < usize::MAX { line + 1 } else { line };
        return Ok((None, i + 1, l, true));
    }
    if c == ' ' || c == '\t' || c == '\r' {
        return Ok((None, i + 1, line, false));
    }
    if c == '-' && cs.len() - i > 1 && cs[i + 1] == '-' {
        let mut j = i + 2;
        while j < cs.len() && cs[j] != '\n'
            invariant
                i + 2 <= j <= cs.len(),
                line_end(cs@, j as nat) == line_end(cs@, (i + 2) as nat),
            decreases cs.len() - j,
        {
            j = j + 1;
        }
        return Ok((None, j, line, false));
    }
    if '0' <= c && c <= '9' {
        let mut v: i64 = (c as u32 - '0' as u32) as i64;
        let mut j = i + 1;
        proof {
            assert(digit_value(c) == v);
        }
        while j < cs.len() && '0' <= cs[j] && cs[j] <= '9'
            invariant
                i < j <= cs.len(),
                c == cs@[i as int],
                is_digit(c),
                v >= 0,
                scan_number(cs@, j as nat, v) == scan_number(cs@, (i + 1) as nat, digit_value(c) as i64),
            decreases cs.len() - j,
        {
            let d = (cs[j] as u32 - '0' as u32) as i64;
            proof {
                assert(digit_value(cs@[j as int]) == d);
            }
            if v > (i64::MAX - d) / 10 {
                proof {
                    assert(is_digit(cs@[j as int]));
                    assert(v > (i64::MAX - digit_value(cs@[j as int])) / 10);
                    assert(scan_number(cs@, j as nat, v) is None);
                }
                return Err(syntax_error(line, "an integer that fits in 64 bits"));
            }
            v = v * 10 + d;
            j = j + 1;
        }
        return Ok((Some(Token::Int(v)), j, line, false));
    }
    if c == '\'' {
        if cs.len() - i > 2 && cs[i + 2] == '\'' {
            return Ok((Some(Token::Char(cs[i + 1])), i + 3, line, false));
        }
        return Err(syntax_error(line, "a character literal"));
    }
    if c == '"' {
        let mut j = i + 1;
        while j < cs.len() && cs[j] != '"'
            invariant
                i + 1 <= j <= cs.len(),
                quote_end(cs@, j as nat) == quote_end(cs@, (i + 1) as nat),
            decreases cs.len() - j,
        {
            j = j + 1;
        }
        if j >= cs.len() {
            return Err(syntax_error(line, "a closing quote"));
        }
        return Ok((Some(Token::Str(string_of(cs, i + 1, j))), j + 1, line, false));
    }
    if ('a' <= c && c <= 'z') || c == '_' || ('A' <= c && c <= 'Z') {
        let mut j = i + 1;
        while j < cs.len() && (('a' <= cs[j] && cs[j] <= 'z') || cs[j] == '_' || ('A' <= cs[j] && cs[j] <= 'Z')
            || ('0' <= cs[j] && cs[j] <= '9') || cs[j] == '\'')
            invariant
                i < j <= cs.len(),
                word_end(cs@, j as nat) == word_end(cs@, (i + 1) as nat),
            decreases cs.len() - j,
        {
            j = j + 1;
        }
        let token = if 'A' <= c && c <= 'Z' {
            upper_word(cs, i, j)
        } else {
            keyword_or_name(cs, i, j)
        };
        return Ok((Some(token), j, line, false));
    }
    if c == '`' {
        if cs.len() - i > 4 && spells(cs, i, i + 5, "`mod`") {
            return Ok((Some(Token::Op(Op::Mod)), i + 5, line, false));
        }
        return Err(syntax_error(line, "`mod`"));
    }
    if cs.len() - i > 1 {
        if let Some(t) = two_char_token(c, cs[i + 1]) {
            return Ok((Some(t), i + 2, line, false));
        }
    }
    match one_char_token(c) {
        Some(t) => Ok((Some(t), i + 1, line, false)),
        None => Err(syntax_error(line, "a token")),
    }
}

/// Splits source text into tokens. Line comments start with `--`; a token
/// starts a declaration when it stands first on its line, in the first
/// column.
pub fn tokenize(source: &str) -> (r: Result<Vec<Tok>, ParsingError>)
    ensures
        match (r, tokens_of(source@)) {
            (Ok(ts), Ok(ms)) => ts@.map_values(|t: Tok| t@) == ms,
            (Err(a), Err(b)) => a@ == b,
            _ => false,
        },
{
    let cs = chars_of(source);
    let ghost whole = tokens_of(cs@);
    let mut toks: Vec<Tok> = Vec::new();
    let mut i: usize = 0;
    let mut line: usize = 1;
    let mut at_line_start = true;
    let ghost mut k: nat = (cs.len() + 1) as nat;
    proof {
        assert(toks@.map_values(|t: Tok| t@) =~= Seq::<TokModel>::empty());
        match lex(cs@, 0, 1, true, k) {
            Ok(rest) => {
                assert(Seq::<TokModel>::empty() + rest =~= rest);
            },
            Err(_) => {},
        }
    }
    while i < cs.len()
        invariant
            i <= cs.len(),
            k > cs.len() - i,
            cs@ == source@,
            whole == tokens_of(cs@),
            whole == (match lex(cs@, i as nat, line as nat, at_line_start, k) {
                Ok(rest) => Ok(toks@.map_values(|t: Tok| t@) + rest),
                Err(e) => Err(e),
            }),
        decreases cs.len() - i,
    {
        let first = at_line_start;
        let ghost before = toks@;
        match lex_one(&cs, i, line, at_line_start) {
            Ok((t, j, l, s)) => {
                match t {
                    Some(token) => {
                        toks.push(Tok { token, line, starts_decl: first });
                        proof {
                            match lex(cs@, j as nat, l as nat, s, (k - 1) as nat) {
                                Ok(rest) => {
                                    assert(toks@.map_values(|t: Tok| t@) =~= before.map_values(|t: Tok| t@).push(
                                        toks@.last()@,
                                    ));
                                    assert(toks@.map_values(|t: Tok| t@) + rest =~= before.map_values(|t: Tok| t@) + (
                                    seq![toks@.last()@] + rest));
                                },
                                Err(_) => {},
                            }
                        }
                    },
                    None => {},
                }
                i = j;
                line = l;
                at_line_start = s;
                proof {
                    k = (k - 1) as nat;
                }
            },
            Err(e) => {
                return Err(e);
            },
        }
    }
    proof {
        match lex(cs@, i as nat, line as nat, at_line_start, k) {
            Ok(rest) => {
                assert(rest == Seq::<TokModel>::empty());
                assert(toks@.map_values(|t: Tok| t@) + rest =~= toks@.map_values(|t: Tok| t@));
            },
            Err(_) => {},
        }
    }
    Ok(toks)
}

} // verus!
