//! The parser's token-stream plumbing: a pull-based cursor over the lexed
//! tokens, with exact error messages for unexpected input.

use vstd::prelude::*;

use crate::lex::Token;
use crate::lex::TokenKind;
use crate::lex::get_tokens;
use crate::lex::spec_tokens;
use crate::lex::tokens_view;

verus! {

/// A parse failure, carrying its message.
#[derive(Debug)]
pub struct ParseError {
    msg: String,
}

impl View for ParseError {
    type V = Seq<char>;

    closed spec fn view(&self) -> Seq<char> {
        self.msg@
    }
}

impl ParseError {
    /// Wrap a message as a parse failure.
    pub fn new(msg: String) -> (r: ParseError)
        ensures
            r@ == msg@,
    {
        ParseError { msg }
    }

    /// The failure's message.
    pub fn message(&self) -> (r: &str)
        ensures
            r@ == self@,
    {
        self.msg.as_str()
    }
}

/// The printed name of a token class.
pub open spec fn kind_name(k: TokenKind) -> Seq<char> {
    match k {
        TokenKind::Id => "id"@,
        TokenKind::Num => "num"@,
        TokenKind::Assign => ":="@,
        TokenKind::Print => "$print"@,
        TokenKind::Read => "$read"@,
        TokenKind::If => "$if"@,
        TokenKind::LBrace => "{"@,
        TokenKind::RBrace => "}"@,
        TokenKind::Plus => "+"@,
        TokenKind::Minus => "-"@,
        TokenKind::Mul => "*"@,
        TokenKind::Div => "/"@,
        TokenKind::Lt => "<"@,
        TokenKind::Error => "error"@,
    }
}

/// Append the printed name of a token class.
pub fn append_kind_name(s: &mut String, k: TokenKind)
    ensures
        final(s)@ == old(s)@ + kind_name(k),
{
    match k {
        TokenKind::Id => s.append("id"),
        TokenKind::Num => s.append("num"),
        TokenKind::Assign => s.append(":="),
        TokenKind::Print => s.append("$print"),
        TokenKind::Read => s.append("$read"),
        TokenKind::If => s.append("$if"),
        TokenKind::LBrace => s.append("{"),
        TokenKind::RBrace => s.append("}"),
        TokenKind::Plus => s.append("+"),
        TokenKind::Minus => s.append("-"),
        TokenKind::Mul => s.append("*"),
        TokenKind::Div => s.append("/"),
        TokenKind::Lt => s.append("<"),
        TokenKind::Error => s.append("error"),
    }
}

/// The message reported when `kind` was expected but `found` (or the end of
/// input) was there instead.
pub open spec fn eat_error_msg(kind: TokenKind, found: Option<(TokenKind, Seq<char>)>) -> Seq<
    char,
> {
    match found {
        Some(p) => "Expected a token with kind "@ + kind_name(kind)
            + ", found a token with kind "@ + kind_name(p.0) + " and text `"@ + p.1 + "`."@,
        None => "Expected a token with kind "@ + kind_name(kind)
            + " but reached the end of input."@,
    }
}

/// A pull-based cursor over the token stream.
pub struct Parser<'input> {
    /// Rest of the input, ordered in reverse.
    pub tokens: Vec<Token<'input>>,
}

impl<'input> Parser<'input> {
    /// A parser over the tokens of `input`.
    pub fn new(input: &'input str) -> (r: Self)
        ensures
            r.tokens@.len() == spec_tokens(input@).len(),
            forall|j: int|
                0 <= j < r.tokens@.len() ==> ((#[trigger] r.tokens@[j]).kind, r.tokens@[j].text@)
                    == spec_tokens(input@)[r.tokens@.len() - 1 - j],
    {
        let toks = get_tokens(input);
        let n = toks.len();
        let mut tokens: Vec<Token<'input>> = Vec::new();
        let mut i: usize = n;
        while i > 0
            invariant
                i <= n,
                n == toks@.len(),
                tokens_view(toks@) == spec_tokens(input@),
                tokens@.len() == n - i,
                forall|j: int| 0 <= j < tokens@.len() ==> #[trigger] tokens@[j] == toks@[n - 1 - j],
            decreases i,
        {
            i = i - 1;
            tokens.push(toks[i]);
        }
        proof {
            assert(forall|j: int|
                0 <= j < n ==> spec_tokens(input@)[j] == ((#[trigger] toks@[j]).kind,
                toks@[j].text@));
        }
        Parser { tokens }
    }

    /// The next token, if any, without consuming it.
    pub fn peek(&self) -> (r: Option<Token<'input>>)
        ensures
            match r {
                Some(t) => self.tokens@.len() > 0 && t == self.tokens@.last(),
                None => self.tokens@.len() == 0,
            },
    {
        if self.tokens.len() == 0 {
            None
        } else {
            Some(self.tokens[self.tokens.len() - 1])
        }
    }

    /// Consume and return the next token; fail at the end of input.
    pub fn next(&mut self) -> (r: Result<Token<'input>, ParseError>)
        ensures
            match r {
                Ok(t) => {
                    &&& old(self).tokens@.len() > 0
                    &&& t == old(self).tokens@.last()
                    &&& final(self).tokens@ == old(self).tokens@.drop_last()
                },
                Err(e) => {
                    &&& old(self).tokens@.len() == 0
                    &&& final(self).tokens@ == old(self).tokens@
                    &&& e@ == "Unexpected end of input."@
                },
            },
    {
        match self.tokens.pop() {
            Some(t) => Ok(t),
            None => Err(ParseError::new(String::from_str("Unexpected end of input."))),
        }
    }

    /// Is the next token of the given class?
    pub fn next_is(&self, kind: TokenKind) -> (r: bool)
        ensures
            r == (self.tokens@.len() > 0 && self.tokens@.last().kind == kind),
    {
        match self.peek() {
            Some(t) => t.kind == kind,
            None => false,
        }
    }

    /// Demand a token of the given class without consuming it: succeed
    /// exactly when the next token has that class, and otherwise report what
    /// was found instead.
    pub fn eat(&self, kind: TokenKind) -> (r: Result<(), ParseError>)
        ensures
            match r {
                Ok(u) => self.tokens@.len() > 0 && self.tokens@.last().kind == kind,
                Err(e) => {
                    &&& !(self.tokens@.len() > 0 && self.tokens@.last().kind == kind)
                    &&& e@ == eat_error_msg(
                        kind,
                        if self.tokens@.len() > 0 {
                            Some((self.tokens@.last().kind, self.tokens@.last().text@))
                        } else {
                            None
                        },
                    )
                },
            },
    {
        if self.next_is(kind) {
            Ok(())
        } else {
            match self.peek() {
                Some(actual) => {
                    let mut msg = String::new();
                    msg.append("Expected a token with kind ");
                    append_kind_name(&mut msg, kind);
                    msg.append(", found a token with kind ");
                    append_kind_name(&mut msg, actual.kind);
                    msg.append(" and text `");
                    msg.append(actual.text);
                    msg.append("`.");
                    proof {
                        assert(msg@ =~= eat_error_msg(
                            kind,
                            Some((self.tokens@.last().kind, self.tokens@.last().text@)),
                        ));
                    }
                    Err(ParseError::new(msg))
                },
                None => {
                    let mut msg = String::new();
                    msg.append("Expected a token with kind ");
                    append_kind_name(&mut msg, kind);
                    msg.append(" but reached the end of input.");
                    proof {
                        assert(msg@ =~= eat_error_msg(kind, None));
                    }
                    Err(ParseError::new(msg))
                },
            }
        }
    }
}

} // verus!
