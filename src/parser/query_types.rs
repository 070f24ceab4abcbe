use vstd::prelude::*;

pub mod inserting;
pub mod reading;
pub mod table_creation;
pub mod type_checker;

use crate::parser::constants::Keyword;
use crate::parser::error::ErrorKind;
use crate::parser::error::ParseError;
use crate::parser::lexer::advance;
use crate::parser::lexer::lemma_scan_bounds;
use crate::parser::lexer::lemma_space_end_bounds;
use crate::parser::lexer::scan;
use crate::parser::lexer::scan_word;
use crate::parser::lexer::Token;
use crate::parser::lexer::TokenView;
use crate::parser::query::QueryView;
use crate::parser::step::Step;
use crate::parser::Parser;

verus! {

/// The error of kind `kind` at offset `loc`.
pub open spec fn fail(kind: ErrorKind, loc: int) -> ParseError {
    ParseError { kind, offset: loc as usize, expected: None }
}

/// Why no token could be read at `loc`: an unclosed literal, or nothing
/// that can start a name.
pub open spec fn empty_token_kind(q: Seq<char>, loc: int) -> ErrorKind {
    if 0 <= loc < q.len() && (q[loc] == '[' || q[loc] == '\'') {
        ErrorKind::UnterminatedLiteral
    } else {
        ErrorKind::MissingIdentifier
    }
}

/// The token at `loc` and the cursor after it.
pub open spec fn pop_at(q: Seq<char>, loc: int) -> (TokenView, int) {
    (scan(q, loc).0, advance(q, loc, scan(q, loc).1))
}

/// The token at `loc` is keyword `k`.
pub open spec fn is_kw_at(q: Seq<char>, loc: int, k: Keyword) -> bool {
    scan(q, loc).0 == TokenView::Keyword(k)
}

/// The token at `loc` must be keyword `k`; the cursor after it, or an error
/// that names `k` as the expected keyword.
pub open spec fn expect_at(q: Seq<char>, loc: int, k: Keyword) -> Result<int, ParseError> {
    if is_kw_at(q, loc, k) {
        Ok(pop_at(q, loc).1)
    } else {
        Err(ParseError { kind: ErrorKind::UnexpectedToken, offset: loc as usize, expected: Some(k) })
    }
}

/// The non-empty name at `loc` and the cursor after it.
pub open spec fn name_at(q: Seq<char>, loc: int) -> Result<(Seq<char>, int), ParseError> {
    let w = scan_word(q, loc);
    if w.len() == 0 {
        Err(fail(ErrorKind::MissingIdentifier, loc))
    } else {
        Ok((w, advance(q, loc, w.len() as int)))
    }
}

impl Parser {
    /// The parser stands at the same statement, its query untouched.
    pub open spec fn same_text_and_data(&self, other: &Parser) -> bool {
        &&& self.wf()
        &&& self.query == other.query
        &&& self.query_data == other.query_data
        &&& self.step == other.step
    }

    /// Takes keyword `k`, or fails.
    pub fn expect(&mut self, k: Keyword) -> (r: Result<(), ParseError>)
        requires
            old(self).wf(),
        ensures
            final(self).same_text_and_data(old(self)),
            old(self).location <= final(self).location,
            r is Ok ==> old(self).location < final(self).location,
            match expect_at(old(self).query@, old(self).location as int, k) {
                Ok(l) => r is Ok && final(self).location == l,
                Err(e) => r == Err::<(), ParseError>(e),
            },
    {
        let loc = self.location;
        proof {
            lemma_keyword_nonempty(k);
        }
        match self.next_token() {
            Token::Keyword(found) => {
                if found == k {
                    Ok(())
                } else {
                    Err(ParseError { kind: ErrorKind::UnexpectedToken, offset: loc, expected: Some(k) })
                }
            },
            Token::Text(_) => Err(ParseError { kind: ErrorKind::UnexpectedToken, offset: loc, expected: Some(k) }),
        }
    }

    /// Takes a non-empty name, or fails.
    pub fn pop_name(&mut self) -> (r: Result<String, ParseError>)
        requires
            old(self).wf(),
        ensures
            final(self).same_text_and_data(old(self)),
            old(self).location <= final(self).location,
            r is Ok ==> old(self).location < final(self).location,
            match name_at(old(self).query@, old(self).location as int) {
                Ok((w, l)) => r is Ok && r->Ok_0@ == w && final(self).location == l,
                Err(e) => r == Err::<String, ParseError>(e),
            },
    {
        let loc = self.location;
        let w = self.pop_identifier();
        if w.as_str().unicode_len() == 0 {
            Err(ParseError { kind: ErrorKind::MissingIdentifier, offset: loc, expected: None })
        } else {
            Ok(w)
        }
    }

    /// Reads what follows a list element: `,` or `) ON`.
    pub fn list_next(&mut self, more: Step, after: Step) -> (r: Result<Step, ParseError>)
        requires
            old(self).wf(),
        ensures
            final(self).same_text_and_data(old(self)),
            old(self).location <= final(self).location,
            r is Ok ==> old(self).location < final(self).location,
            match list_next(old(self).query@, old(self).location as int, more, after) {
                Ok((s, l)) => r == Ok::<Step, ParseError>(s) && final(self).location == l,
                Err(e) => r == Err::<Step, ParseError>(e),
            },
    {
        let loc = self.location;
        proof {
            lemma_keyword_nonempty(Keyword::CloseParen);
            lemma_keyword_nonempty(Keyword::Comma);
        }
        if self.at_keyword(Keyword::CloseParen) {
            self.next_token();
            match self.expect(Keyword::On) {
                Ok(()) => Ok(after),
                Err(e) => Err(e),
            }
        } else if self.at_keyword(Keyword::Comma) {
            self.next_token();
            Ok(more)
        } else {
            Err(ParseError { kind: ErrorKind::UnexpectedToken, offset: loc, expected: None })
        }
    }

    /// Whether the token at the cursor is keyword `k`.
    pub fn at_keyword(&self, k: Keyword) -> (r: bool)
        requires
            self.wf(),
        ensures
            r == is_kw_at(self.query@, self.location as int, k),
    {
        match self.peek_token_only() {
            Token::Keyword(found) => found == k,
            Token::Text(_) => false,
        }
    }

    /// The error for an empty token at `loc`.
    pub fn empty_token_error(&self, loc: usize) -> (r: ParseError)
        ensures
            r == fail(empty_token_kind(self.query@, loc as int), loc as int),
    {
        let len = self.query.as_str().unicode_len();
        if loc < len {
            let c = self.query.as_str().get_char(loc);
            if c == '[' || c == '\'' {
                return ParseError { kind: ErrorKind::UnterminatedLiteral, offset: loc, expected: None };
            }
        }
        ParseError { kind: ErrorKind::MissingIdentifier, offset: loc, expected: None }
    }
}

/// What a parser handler returned, and the parser it left, agree with the
/// outcome `s` of the grammar: the next state, cursor and query, or the error.
pub open spec fn outcome_matches(
    r: Result<Step, ParseError>,
    p: &Parser,
    s: Result<(Step, int, QueryView), ParseError>,
) -> bool {
    match s {
        Ok((st, l, d)) => r == Ok::<Step, ParseError>(st) && p.location == l && p.query_data.view()
            == d,
        Err(e) => r == Err::<Step, ParseError>(e),
    }
}

/// After an element of a parenthesised list at `loc`: `,` leads to `more`,
/// `) ON` leads to `after`.
pub open spec fn list_next(q: Seq<char>, loc: int, more: Step, after: Step) -> Result<
    (Step, int),
    ParseError,
> {
    if is_kw_at(q, loc, Keyword::CloseParen) {
        match expect_at(q, pop_at(q, loc).1, Keyword::On) {
            Ok(l) => Ok((after, l)),
            Err(e) => Err(e),
        }
    } else if is_kw_at(q, loc, Keyword::Comma) {
        Ok((more, pop_at(q, loc).1))
    } else {
        Err(fail(ErrorKind::UnexpectedToken, loc))
    }
}

/// Every keyword is spelled with at least one character.
pub proof fn lemma_keyword_nonempty(k: Keyword)
    ensures
        k.spec_text().len() > 0,
{
}

/// The cursor never moves back, and stays within the statement.
pub proof fn lemma_advance_bounds(q: Seq<char>, loc: int, n: int)
    requires
        0 <= loc,
        0 <= n,
        loc + n <= q.len(),
    ensures
        loc + n <= advance(q, loc, n) <= q.len(),
{
    lemma_space_end_bounds(q, loc + n);
}

/// Popping a token keeps the cursor within the statement.
pub proof fn lemma_pop_bounds(q: Seq<char>, loc: int)
    requires
        0 <= loc <= q.len(),
    ensures
        loc + scan(q, loc).1 <= pop_at(q, loc).1 <= q.len(),
{
    lemma_scan_bounds(q, loc);
    lemma_advance_bounds(q, loc, scan(q, loc).1);
}

} // verus!
