//! The lexer: turns source text into tokens.
//!
//! Recognizers are tried in a fixed order at each position — keywords first,
//! then punctuation, then identifiers and numerals (both maximal-munch) — and
//! an unrecognized character becomes a one-character error token.
//! Whitespace and `//` line comments are skipped between tokens.

use vstd::prelude::*;

use crate::ident::is_id_char;
use crate::ident::is_id_start_char;

verus! {

/// Token classes.
#[derive(Clone, Copy, PartialEq, Eq, Hash, Debug, Structural)]
pub enum TokenKind {
    Id,
    Num,
    Assign,
    Print,
    Read,
    If,
    LBrace,
    RBrace,
    Plus,
    Minus,
    Mul,
    Div,
    Lt,
    /// For unrecognized characters.
    Error,
}

/// A token: its class and the part of the input it carries.
#[derive(Clone, Copy, PartialEq, Eq, Hash, Debug)]
pub struct Token<'src> {
    /// What token class this token belongs to.
    pub kind: TokenKind,
    /// What part of the input this token carries.
    pub text: &'src str,
}

/// Is `c` whitespace to the lexer?
pub open spec fn is_ws_char(c: char) -> bool {
    c == ' ' || c == '\t' || c == '\x0c' || c == '\r' || c == '\n' || c == '\x0b'
}

/// Is `c` a decimal digit?
pub open spec fn is_digit_char(c: char) -> bool {
    ('0' as u32) <= (c as u32) <= ('9' as u32)
}

/// The position of the next newline at or after `i`, or the end of input.
pub open spec fn line_end(s: Seq<char>, i: int) -> int
    decreases s.len() - i,
{
    if i < 0 || i >= s.len() {
        s.len() as int
    } else if s[i] == '\n' {
        i
    } else {
        line_end(s, i + 1)
    }
}

/// `line_end` never moves backwards and never passes the end.
pub proof fn lemma_line_end_bounds(s: Seq<char>, i: int)
    requires
        0 <= i <= s.len(),
    ensures
        i <= line_end(s, i) <= s.len(),
    decreases s.len() - i,
{
    if i < s.len() && s[i] != '\n' {
        lemma_line_end_bounds(s, i + 1);
    }
}

/// The position after the run of whitespace and `//` comments at `i`.
pub open spec fn skip_ws(s: Seq<char>, i: int) -> int
    decreases s.len() - i,
    via skip_ws_decreases
{
    if i < 0 || i >= s.len() {
        i
    } else if is_ws_char(s[i]) {
        skip_ws(s, i + 1)
    } else if s[i] == '/' && i + 1 < s.len() && s[i + 1] == '/' {
        skip_ws(s, line_end(s, i + 2))
    } else {
        i
    }
}

#[via_fn]
proof fn skip_ws_decreases(s: Seq<char>, i: int) {
    if 0 <= i && i < s.len() && !is_ws_char(s[i]) && s[i] == '/' && i + 1 < s.len() && s[i + 1]
        == '/' {
        lemma_line_end_bounds(s, i + 2);
    }
}

/// `skip_ws` never moves backwards and never passes the end.
pub proof fn lemma_skip_ws_bounds(s: Seq<char>, i: int)
    requires
        0 <= i <= s.len(),
    ensures
        i <= skip_ws(s, i) <= s.len(),
    decreases s.len() - i,
{
    if i < s.len() {
        if is_ws_char(s[i]) {
            lemma_skip_ws_bounds(s, i + 1);
        } else if s[i] == '/' && i + 1 < s.len() && s[i + 1] == '/' {
            lemma_line_end_bounds(s, i + 2);
            lemma_skip_ws_bounds(s, line_end(s, i + 2));
        }
    }
}

/// Does `p` occur in `s` starting at position `i`?
pub open spec fn has_prefix(s: Seq<char>, i: int, p: Seq<char>) -> bool {
    &&& 0 <= i
    &&& i + p.len() <= s.len()
    &&& s.subrange(i, i + p.len() as int) == p
}

/// The end of the run of identifier characters starting at `i`.
pub open spec fn id_end(s: Seq<char>, i: int) -> int
    decreases s.len() - i,
{
    if 0 <= i < s.len() && is_id_char(s[i]) {
        id_end(s, i + 1)
    } else {
        i
    }
}

/// `id_end` never moves backwards and never passes the end.
pub proof fn lemma_id_end_bounds(s: Seq<char>, i: int)
    requires
        0 <= i <= s.len(),
    ensures
        i <= id_end(s, i) <= s.len(),
    decreases s.len() - i,
{
    if i < s.len() && is_id_char(s[i]) {
        lemma_id_end_bounds(s, i + 1);
    }
}

/// The end of the run of digits starting at `i`.
pub open spec fn num_end(s: Seq<char>, i: int) -> int
    decreases s.len() - i,
{
    if 0 <= i < s.len() && is_digit_char(s[i]) {
        num_end(s, i + 1)
    } else {
        i
    }
}

/// `num_end` never moves backwards and never passes the end.
pub proof fn lemma_num_end_bounds(s: Seq<char>, i: int)
    requires
        0 <= i <= s.len(),
    ensures
        i <= num_end(s, i) <= s.len(),
    decreases s.len() - i,
{
    if i < s.len() && is_digit_char(s[i]) {
        lemma_num_end_bounds(s, i + 1);
    }
}

/// The token found at position `i` (which must hold a character): its class
/// and its end position.  Recognizers are tried in a fixed order; an
/// unrecognized character yields a one-character error token.
pub open spec fn token_at(s: Seq<char>, i: int) -> (TokenKind, int) {
    if has_prefix(s, i, "$print"@) {
        (TokenKind::Print, i + 6)
    } else if has_prefix(s, i, "$read"@) {
        (TokenKind::Read, i + 5)
    } else if has_prefix(s, i, "$if"@) {
        (TokenKind::If, i + 3)
    } else if s[i] == '{' {
        (TokenKind::LBrace, i + 1)
    } else if s[i] == '}' {
        (TokenKind::RBrace, i + 1)
    } else if has_prefix(s, i, ":="@) {
        (TokenKind::Assign, i + 2)
    } else if s[i] == '+' {
        (TokenKind::Plus, i + 1)
    } else if s[i] == '-' {
        (TokenKind::Minus, i + 1)
    } else if s[i] == '*' {
        (TokenKind::Mul, i + 1)
    } else if s[i] == '/' {
        (TokenKind::Div, i + 1)
    } else if s[i] == '<' {
        (TokenKind::Lt, i + 1)
    } else if is_id_start_char(s[i]) {
        (TokenKind::Id, id_end(s, i + 1))
    } else if is_digit_char(s[i]) {
        (TokenKind::Num, num_end(s, i + 1))
    } else {
        (TokenKind::Error, i + 1)
    }
}

/// A token occupies at least one character and ends within the input.
pub proof fn lemma_token_at_bounds(s: Seq<char>, i: int)
    requires
        0 <= i < s.len(),
    ensures
        i < token_at(s, i).1 <= s.len(),
{
    reveal_strlit("$print");
    reveal_strlit("$read");
    reveal_strlit("$if");
    reveal_strlit(":=");
    if !has_prefix(s, i, "$print"@) && !has_prefix(s, i, "$read"@) && !has_prefix(s, i, "$if"@)
        && s[i] != '{' && s[i] != '}' && !has_prefix(s, i, ":="@) && s[i] != '+' && s[i] != '-'
        && s[i] != '*' && s[i] != '/' && s[i] != '<' {
        if is_id_start_char(s[i]) {
            lemma_id_end_bounds(s, i + 1);
        } else if is_digit_char(s[i]) {
            lemma_num_end_bounds(s, i + 1);
        }
    }
}

/// The token stream of `s` from position `i` on: each element is a token
/// class and the slice of input it covers.
pub open spec fn tokens_from(s: Seq<char>, i: int) -> Seq<(TokenKind, Seq<char>)>
    decreases s.len() - i,
    when 0 <= i <= s.len()
    via tokens_from_decreases
{
    let j = skip_ws(s, i);
    if j >= s.len() {
        Seq::empty()
    } else {
        seq![(token_at(s, j).0, s.subrange(j, token_at(s, j).1))] + tokens_from(
            s,
            token_at(s, j).1,
        )
    }
}

#[via_fn]
proof fn tokens_from_decreases(s: Seq<char>, i: int) {
    if 0 <= i <= s.len() {
        lemma_skip_ws_bounds(s, i);
        let j = skip_ws(s, i);
        if j < s.len() {
            lemma_token_at_bounds(s, j);
        }
    }
}

/// The full token stream of an input.
pub open spec fn spec_tokens(s: Seq<char>) -> Seq<(TokenKind, Seq<char>)> {
    tokens_from(s, 0)
}

/// Compute the position of the next newline at or after `i`.
fn line_end_exec(s: &str, i: usize) -> (r: usize)
    requires
        i <= s@.len(),
    ensures
        r as int == line_end(s@, i as int),
        i <= r <= s@.len(),
    decreases s@.len() - i,
{
    let n = s.unicode_len();
    if i >= n {
        n
    } else if s.get_char(i) == '\n' {
        i
    } else {
        line_end_exec(s, i + 1)
    }
}

/// Compute the position after whitespace and comments at `i`.
fn skip_ws_exec(s: &str, i: usize) -> (r: usize)
    requires
        i <= s@.len(),
    ensures
        r as int == skip_ws(s@, i as int),
        i <= r <= s@.len(),
    decreases s@.len() - i,
{
    let n = s.unicode_len();
    if i >= n {
        i
    } else {
        let c = s.get_char(i);
        if c == ' ' || c == '\t' || c == '\x0c' || c == '\r' || c == '\n' || c == '\x0b' {
            skip_ws_exec(s, i + 1)
        } else if c == '/' && i + 1 < n && s.get_char(i + 1) == '/' {
            proof {
                lemma_line_end_bounds(s@, i + 2);
            }
            let le = line_end_exec(s, i + 2);
            skip_ws_exec(s, le)
        } else {
            i
        }
    }
}

/// Does `p` occur in `s` starting at position `i`?
fn has_prefix_at(s: &str, i: usize, p: &str) -> (r: bool)
    requires
        i <= s@.len(),
    ensures
        r == has_prefix(s@, i as int, p@),
{
    let n = s.unicode_len();
    let plen = p.unicode_len();
    if plen > n - i {
        proof {
            assert(!has_prefix(s@, i as int, p@));
        }
        return false;
    }
    let mut k: usize = 0;
    while k < plen
        invariant
            k <= plen,
            i + plen <= n,
            n == s@.len(),
            plen == p@.len(),
            forall|q: int| 0 <= q < k ==> s@[i + q] == p@[q],
        decreases plen - k,
    {
        if s.get_char(i + k) != p.get_char(k) {
            proof {
                assert(s@.subrange(i as int, i + plen as int) != p@) by {
                    assert(s@.subrange(i as int, i + plen as int)[k as int] == s@[i + k]);
                }
            }
            return false;
        }
        k = k + 1;
    }
    proof {
        assert(s@.subrange(i as int, i + plen as int) =~= p@);
    }
    true
}

/// Compute the end of the run of identifier characters at `i`.
fn id_end_exec(s: &str, i: usize) -> (r: usize)
    requires
        i <= s@.len(),
    ensures
        r as int == id_end(s@, i as int),
        i <= r <= s@.len(),
    decreases s@.len() - i,
{
    let n = s.unicode_len();
    if i < n {
        let c = s.get_char(i);
        let u = c as u32;
        let cont = (97 <= u && u <= 122) || (65 <= u && u <= 90) || u == 95 || (48 <= u && u
            <= 57);
        proof {
            assert(('a' as u32) == 97 && ('z' as u32) == 122);
            assert(('A' as u32) == 65 && ('Z' as u32) == 90);
            assert(('0' as u32) == 48 && ('9' as u32) == 57);
            assert(('_' as u32) == 95);
            if u == 95 {
                vstd::utf8::char_u32_cast(c, u);
                vstd::utf8::char_u32_cast('_', 95u32);
                assert(c == '_');
            }
            assert(cont == is_id_char(c));
        }
        if cont {
            id_end_exec(s, i + 1)
        } else {
            i
        }
    } else {
        i
    }
}

/// Compute the end of the run of digits at `i`.
fn num_end_exec(s: &str, i: usize) -> (r: usize)
    requires
        i <= s@.len(),
    ensures
        r as int == num_end(s@, i as int),
        i <= r <= s@.len(),
    decreases s@.len() - i,
{
    let n = s.unicode_len();
    if i < n {
        let c = s.get_char(i);
        let u = c as u32;
        proof {
            assert(('0' as u32) == 48 && ('9' as u32) == 57);
        }
        if 48 <= u && u <= 57 {
            num_end_exec(s, i + 1)
        } else {
            i
        }
    } else {
        i
    }
}

/// The lexer: the input and the current position (a character index).
pub struct Lexer<'input> {
    pub input: &'input str,
    pub pos: usize,
}

impl<'input> Lexer<'input> {
    /// A lexer at the start of the input.
    pub fn new(input: &'input str) -> (r: Self)
        ensures
            r.input@ == input@,
            r.pos == 0,
    {
        Lexer { input, pos: 0 }
    }

    /// Has the lexer reached the end of input?
    pub fn end_of_input(&self) -> (r: bool)
        ensures
            r == (self.pos == self.input@.len()),
    {
        self.pos == self.input.unicode_len()
    }

    /// Skip comments and whitespace.
    pub fn skip_whitespace(&mut self)
        requires
            old(self).pos <= old(self).input@.len(),
        ensures
            final(self).input == old(self).input,
            final(self).pos as int == skip_ws(old(self).input@, old(self).pos as int),
    {
        self.pos = skip_ws_exec(self.input, self.pos);
    }

    /// Get the next token if possible: `None` at the end of input, otherwise
    /// the token found after skipping whitespace (an `Error` token for an
    /// unrecognized character).
    pub fn next(&mut self) -> (r: Option<Token<'input>>)
        requires
            old(self).pos <= old(self).input@.len(),
        ensures
            final(self).input == old(self).input,
            final(self).pos <= final(self).input@.len(),
            ({
                let s = old(self).input@;
                let j = skip_ws(s, old(self).pos as int);
                match r {
                    None => j >= s.len() && final(self).pos == s.len(),
                    Some(tok) => {
                        &&& j < s.len()
                        &&& tok.kind == token_at(s, j).0
                        &&& tok.text@ == s.subrange(j, token_at(s, j).1)
                        &&& final(self).pos as int == token_at(s, j).1
                    },
                }
            }),
    {
        let j = skip_ws_exec(self.input, self.pos);
        let n = self.input.unicode_len();
        if j >= n {
            self.pos = n;
            return None;
        }
        proof {
            lemma_token_at_bounds(self.input@, j as int);
        }
        let ghost s = self.input@;
        let (kind, e): (TokenKind, usize) = if has_prefix_at(self.input, j, "$print") {
            (TokenKind::Print, j + 6)
        } else if has_prefix_at(self.input, j, "$read") {
            (TokenKind::Read, j + 5)
        } else if has_prefix_at(self.input, j, "$if") {
            (TokenKind::If, j + 3)
        } else {
            let c = self.input.get_char(j);
            if c == '{' {
                (TokenKind::LBrace, j + 1)
            } else if c == '}' {
                (TokenKind::RBrace, j + 1)
            } else if has_prefix_at(self.input, j, ":=") {
                (TokenKind::Assign, j + 2)
            } else if c == '+' {
                (TokenKind::Plus, j + 1)
            } else if c == '-' {
                (TokenKind::Minus, j + 1)
            } else if c == '*' {
                (TokenKind::Mul, j + 1)
            } else if c == '/' {
                (TokenKind::Div, j + 1)
            } else {
                let u = c as u32;
                let start = (97 <= u && u <= 122) || (65 <= u && u <= 90) || u == 95;
                proof {
                    assert(('a' as u32) == 97 && ('z' as u32) == 122);
                    assert(('A' as u32) == 65 && ('Z' as u32) == 90);
                    assert(('_' as u32) == 95);
                    if u == 95 {
                        vstd::utf8::char_u32_cast(c, u);
                        vstd::utf8::char_u32_cast('_', 95u32);
                        assert(c == '_');
                    }
                    assert(start == crate::ident::is_id_start_char(c));
                }
                if c == '<' {
                    (TokenKind::Lt, j + 1)
                } else if start {
                    (TokenKind::Id, id_end_exec(self.input, j + 1))
                } else if 48 <= u && u <= 57 {
                    proof {
                        assert(('0' as u32) == 48 && ('9' as u32) == 57);
                    }
                    (TokenKind::Num, num_end_exec(self.input, j + 1))
                } else {
                    proof {
                        assert(('0' as u32) == 48 && ('9' as u32) == 57);
                    }
                    (TokenKind::Error, j + 1)
                }
            }
        };
        proof {
            assert(kind == token_at(s, j as int).0 && e as int == token_at(s, j as int).1);
        }
        let text = self.input.substring_char(j, e);
        self.pos = e;
        Some(Token { kind, text })
    }
}

/// The token views of a token vector.
pub open spec fn tokens_view(v: Seq<Token>) -> Seq<(TokenKind, Seq<char>)> {
    v.map(|j, t: Token| (t.kind, t.text@))
}

/// Read all the tokens from the input.
pub fn get_tokens(input: &str) -> (r: Vec<Token>)
    ensures
        tokens_view(r@) == spec_tokens(input@),
{
    let mut lexer = Lexer::new(input);
    let mut out: Vec<Token> = Vec::new();
    proof {
        assert(tokens_view(out@) + tokens_from(input@, 0) =~= spec_tokens(input@));
    }
    loop
        invariant
            lexer.input@ == input@,
            lexer.pos <= input@.len(),
            tokens_view(out@) + tokens_from(input@, lexer.pos as int) =~= spec_tokens(input@),
        decreases input@.len() - lexer.pos,
    {
        let ghost oldpos = lexer.pos as int;
        match lexer.next() {
            None => {
                proof {
                    assert(tokens_from(input@, oldpos) =~= Seq::<(TokenKind, Seq<char>)>::empty());
                    assert(tokens_view(out@) =~= spec_tokens(input@));
                }
                return out;
            },
            Some(tok) => {
                proof {
                    lemma_skip_ws_bounds(input@, oldpos);
                    lemma_token_at_bounds(input@, skip_ws(input@, oldpos));
                }
                let ghost prev = out@;
                out.push(tok);
                proof {
                    let s = input@;
                    let j = skip_ws(s, oldpos);
                    assert(tokens_view(out@) =~= tokens_view(prev) + seq![
                        (tok.kind, tok.text@),
                    ]);
                    assert(tokens_view(out@) + tokens_from(s, lexer.pos as int) =~= tokens_view(
                        prev,
                    ) + tokens_from(s, oldpos));
                }
            },
        }
    }
}

} // verus!
