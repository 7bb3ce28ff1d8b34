use vstd::prelude::*;

use crate::float_literal::{float_literal_scan, lemma_float_scan_consumes, scan_float, FloatScan};
use crate::text::{chars_of, string_of_range};

verus! {

/// A lexical token of the expression language.
/// Numbers keep the text of their literal; variables keep their name.
#[derive(Debug, Clone, PartialEq)]
pub enum Token {
    Number(String),
    Add,
    Sub,
    Mul,
    Div,
    Pow,
    Sin,
    Cos,
    Tan,
    Var(String),
    OpenBracket,
    CloseBracket,
}

/// The mathematical model of a [`Token`]: strings are taken by their characters.
pub enum TokenView {
    Number(Seq<char>),
    Add,
    Sub,
    Mul,
    Div,
    Pow,
    Sin,
    Cos,
    Tan,
    Var(Seq<char>),
    OpenBracket,
    CloseBracket,
}

impl View for Token {
    type V = TokenView;

    open spec fn view(&self) -> TokenView {
        match self {
            Token::Number(s) => TokenView::Number(s@),
            Token::Add => TokenView::Add,
            Token::Sub => TokenView::Sub,
            Token::Mul => TokenView::Mul,
            Token::Div => TokenView::Div,
            Token::Pow => TokenView::Pow,
            Token::Sin => TokenView::Sin,
            Token::Cos => TokenView::Cos,
            Token::Tan => TokenView::Tan,
            Token::Var(s) => TokenView::Var(s@),
            Token::OpenBracket => TokenView::OpenBracket,
            Token::CloseBracket => TokenView::CloseBracket,
        }
    }
}


// ---------------------------------------------------------------------------
// Characters
// ---------------------------------------------------------------------------

/// The whitespace that the tokenizer skips around every token
pub open spec fn is_multispace(c: char) -> bool {
    c == ' ' || c == '\t' || c == '\r' || c == '\n'
}

/// ASCII letters, of which variable names are made
pub open spec fn is_alpha(c: char) -> bool {
    ('A' <= c && c <= 'Z') || ('a' <= c && c <= 'z')
}

/// The index of the first non-whitespace character at or after `p`
pub open spec fn skip_ws(s: Seq<char>, p: int) -> int
    decreases s.len() - p,
{
    if 0 <= p < s.len() && is_multispace(s[p]) {
        skip_ws(s, p + 1)
    } else {
        p
    }
}

/// The index just after the run of letters that starts at `p`
pub open spec fn alpha_end(s: Seq<char>, p: int) -> int
    decreases s.len() - p,
{
    if 0 <= p < s.len() && is_alpha(s[p]) {
        alpha_end(s, p + 1)
    } else {
        p
    }
}

/// `s` holds the word `w` at index `p`
pub open spec fn word_at(s: Seq<char>, p: int, w: Seq<char>) -> bool {
    0 <= p && p + w.len() <= s.len() && s.subrange(p, p + w.len()) == w
}

pub proof fn lemma_skip_ws(s: Seq<char>, p: int)
    requires
        0 <= p <= s.len(),
    ensures
        p <= skip_ws(s, p) <= s.len(),
        skip_ws(s, p) < s.len() ==> !is_multispace(s[skip_ws(s, p)]),
    decreases s.len() - p,
{
    if p < s.len() && is_multispace(s[p]) {
        lemma_skip_ws(s, p + 1);
    }
}

pub proof fn lemma_alpha_end(s: Seq<char>, p: int)
    requires
        0 <= p <= s.len(),
    ensures
        p <= alpha_end(s, p) <= s.len(),
    decreases s.len() - p,
{
    if p < s.len() && is_alpha(s[p]) {
        lemma_alpha_end(s, p + 1);
    }
}

// ---------------------------------------------------------------------------
// Model of the tokenizer
// ---------------------------------------------------------------------------

/// The outcome of reading one token
pub enum TokenStep {
    /// Reading failed unrecoverably: the whole input is rejected
    Fatal,
    /// No token starts here: reading stops
    NoToken,
    /// A token, and the index where the next one may start
    Found(TokenView, int),
}

/// A single-character token
pub open spec fn symbol_token(c: char) -> Option<TokenView> {
    if c == '(' {
        Some(TokenView::OpenBracket)
    } else if c == ')' {
        Some(TokenView::CloseBracket)
    } else if c == '^' {
        Some(TokenView::Pow)
    } else if c == '/' {
        Some(TokenView::Div)
    } else if c == '*' {
        Some(TokenView::Mul)
    } else if c == '+' {
        Some(TokenView::Add)
    } else if c == '-' {
        Some(TokenView::Sub)
    } else {
        None
    }
}

/// Reads the token that starts at `p` (after whitespace). The alternatives are
/// tried in the order: brackets, `^`, `/`, `*`, `+`, `-`, a number literal,
/// `sin`, `cos`, `tan`, a variable name; whitespace after a token is skipped too.
pub open spec fn token_step(s: Seq<char>, p: int) -> TokenStep {
    let q = skip_ws(s, p);
    if q < s.len() && symbol_token(s[q]) is Some {
        TokenStep::Found(symbol_token(s[q]).unwrap(), skip_ws(s, q + 1))
    } else {
        match float_literal_scan(s.subrange(q, s.len() as int)) {
            None => TokenStep::Fatal,
            Some(Some(r)) => TokenStep::Found(
                TokenView::Number(s.subrange(q, s.len() - r)),
                skip_ws(s, s.len() - r),
            ),
            Some(None) => if word_at(s, q, seq!['s', 'i', 'n']) {
                TokenStep::Found(TokenView::Sin, skip_ws(s, q + 3))
            } else if word_at(s, q, seq!['c', 'o', 's']) {
                TokenStep::Found(TokenView::Cos, skip_ws(s, q + 3))
            } else if word_at(s, q, seq!['t', 'a', 'n']) {
                TokenStep::Found(TokenView::Tan, skip_ws(s, q + 3))
            } else if q < s.len() && is_alpha(s[q]) {
                TokenStep::Found(
                    TokenView::Var(s.subrange(q, alpha_end(s, q))),
                    skip_ws(s, alpha_end(s, q)),
                )
            } else {
                TokenStep::NoToken
            },
        }
    }
}

/// The tokens read from index `p` on, until no token starts; `None` if reading fails
pub open spec fn tokens_from(s: Seq<char>, p: int) -> Option<Seq<TokenView>>
    decreases s.len() - p,
{
    match token_step(s, p) {
        TokenStep::Fatal => None,
        TokenStep::NoToken => Some(Seq::empty()),
        TokenStep::Found(t, n) => if p < n <= s.len() {
            match tokens_from(s, n) {
                None => None,
                Some(rest) => Some(seq![t] + rest),
            }
        } else {
            Some(Seq::empty())
        },
    }
}

/// The tokens of an input: at least one token must be read, and reading stops at
/// the first place where no token starts (the rest of the input is ignored)
pub open spec fn spec_tokenize(s: Seq<char>) -> Option<Seq<TokenView>> {
    match tokens_from(s, 0) {
        None => None,
        Some(ts) => if ts.len() == 0 {
            None
        } else {
            Some(ts)
        },
    }
}


// ---------------------------------------------------------------------------
// Tokenizer
// ---------------------------------------------------------------------------

/// The view of a token sequence, token by token
pub open spec fn tokens_view(v: Seq<Token>) -> Seq<TokenView> {
    v.map_values(|t: Token| t@)
}

/// The view of an optional token sequence
pub open spec fn option_tokens_view(o: Option<Vec<Token>>) -> Option<Seq<TokenView>> {
    match o {
        Some(v) => Some(tokens_view(v@)),
        None => None,
    }
}

fn skip_ws_at(cs: &Vec<char>, p: usize) -> (res: usize)
    requires
        p <= cs.len(),
    ensures
        res as int == skip_ws(cs@, p as int),
        p <= res <= cs.len(),
{
    let mut i = p;
    while i < cs.len() && (cs[i] == ' ' || cs[i] == '\t' || cs[i] == '\r' || cs[i] == '\n')
        invariant
            p <= i <= cs.len(),
            skip_ws(cs@, i as int) == skip_ws(cs@, p as int),
        decreases cs.len() - i,
    {
        i += 1;
    }
    i
}

fn alpha_end_at(cs: &Vec<char>, p: usize) -> (res: usize)
    requires
        p <= cs.len(),
    ensures
        res as int == alpha_end(cs@, p as int),
        p <= res <= cs.len(),
{
    let mut i = p;
    while i < cs.len() && (('A' <= cs[i] && cs[i] <= 'Z') || ('a' <= cs[i] && cs[i] <= 'z'))
        invariant
            p <= i <= cs.len(),
            alpha_end(cs@, i as int) == alpha_end(cs@, p as int),
        decreases cs.len() - i,
    {
        i += 1;
    }
    i
}

/// Whether the three characters at `p` are `a`, `b`, `c`
fn word3_at(cs: &Vec<char>, p: usize, a: char, b: char, c: char) -> (res: bool)
    requires
        p <= cs.len(),
    ensures
        res == word_at(cs@, p as int, seq![a, b, c]),
{
    if cs.len() >= 3 && p <= cs.len() - 3 && cs[p] == a && cs[p + 1] == b && cs[p + 2] == c {
        assert(cs@.subrange(p as int, p + 3) =~= seq![a, b, c]);
        true
    } else {
        proof {
            if word_at(cs@, p as int, seq![a, b, c]) {
                assert(cs@.subrange(p as int, p + 3)[0] == a);
                assert(cs@.subrange(p as int, p + 3)[1] == b);
                assert(cs@.subrange(p as int, p + 3)[2] == c);
            }
        }
        false
    }
}

fn symbol_at(c: char) -> (res: Option<Token>)
    ensures
        match res {
            Some(t) => symbol_token(c) == Some(t@),
            None => symbol_token(c) is None,
        },
{
    if c == '(' {
        Some(Token::OpenBracket)
    } else if c == ')' {
        Some(Token::CloseBracket)
    } else if c == '^' {
        Some(Token::Pow)
    } else if c == '/' {
        Some(Token::Div)
    } else if c == '*' {
        Some(Token::Mul)
    } else if c == '+' {
        Some(Token::Add)
    } else if c == '-' {
        Some(Token::Sub)
    } else {
        None
    }
}

enum Step {
    Fatal,
    NoToken,
    Found(Token, usize),
}

spec fn step_view(st: Step) -> TokenStep {
    match st {
        Step::Fatal => TokenStep::Fatal,
        Step::NoToken => TokenStep::NoToken,
        Step::Found(t, n) => TokenStep::Found(t@, n as int),
    }
}

/// Read the token that starts at `p`
fn next_token(cs: &Vec<char>, p: usize) -> (res: Step)
    requires
        p <= cs.len(),
    ensures
        step_view(res) == token_step(cs@, p as int),
        res matches Step::Found(_, n) ==> p < n <= cs.len(),
{
    let q = skip_ws_at(cs, p);
    proof {
        lemma_skip_ws(cs@, p as int);
    }
    if q < cs.len() {
        match symbol_at(cs[q]) {
            Some(t) => {
                let n = skip_ws_at(cs, q + 1);
                return Step::Found(t, n);
            },
            None => {},
        }
    }
    proof {
        lemma_float_scan_consumes(cs@.subrange(q as int, cs.len() as int));
    }
    match scan_float(cs, q) {
        FloatScan::Fatal => Step::Fatal,
        FloatScan::Matched(r) => {
            let end = cs.len() - r;
            let lexeme = string_of_range(cs, q, end);
            let n = skip_ws_at(cs, end);
            Step::Found(Token::Number(lexeme), n)
        },
        FloatScan::NoMatch => {
            if word3_at(cs, q, 's', 'i', 'n') {
                let n = skip_ws_at(cs, q + 3);
                Step::Found(Token::Sin, n)
            } else if word3_at(cs, q, 'c', 'o', 's') {
                let n = skip_ws_at(cs, q + 3);
                Step::Found(Token::Cos, n)
            } else if word3_at(cs, q, 't', 'a', 'n') {
                let n = skip_ws_at(cs, q + 3);
                Step::Found(Token::Tan, n)
            } else if q < cs.len() && (('A' <= cs[q] && cs[q] <= 'Z') || ('a' <= cs[q] && cs[q]
                <= 'z')) {
                let end = alpha_end_at(cs, q);
                proof {
                    lemma_alpha_end(cs@, q + 1);
                }
                let name = string_of_range(cs, q, end);
                let n = skip_ws_at(cs, end);
                Step::Found(Token::Var(name), n)
            } else {
                Step::NoToken
            }
        },
    }
}

/// Split an input into tokens: `None` where no token can be read at its start,
/// or where a number literal is malformed
pub fn parse_tokens(input: &str) -> (res: Option<Vec<Token>>)
    ensures
        option_tokens_view(res) == spec_tokenize(input@),
{
    let cs = chars_of(input);
    let ghost s = cs@;
    let mut p: usize = 0;
    let mut out: Vec<Token> = Vec::new();
    loop
        invariant
            s == cs@,
            s == input@,
            p <= cs.len(),
            tokens_from(s, 0) == match tokens_from(s, p as int) {
                None => None,
                Some(rest) => Some(tokens_view(out@) + rest),
            },
        ensures
            tokens_from(s, 0) == Some(tokens_view(out@)),
        decreases cs.len() - p,
    {
        let ghost out_before = tokens_view(out@);
        match next_token(&cs, p) {
            Step::Fatal => {
                return None;
            },
            Step::NoToken => {
                assert(tokens_view(out@) + Seq::<TokenView>::empty() =~= tokens_view(out@));
                break ;
            },
            Step::Found(t, n) => {
                let ghost tv = t@;
                out.push(t);
                proof {
                    assert(tokens_view(out@) =~= out_before.push(tv));
                    match tokens_from(s, n as int) {
                        None => {},
                        Some(rest) => {
                            assert(out_before + (seq![tv] + rest) =~= out_before.push(tv) + rest);
                        },
                    }
                }
                p = n;
            },
        }
    }
    if out.len() == 0 {
        None
    } else {
        Some(out)
    }
}

} // verus!
