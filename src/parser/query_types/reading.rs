use vstd::prelude::*;

use super::expect_at;
use super::fail;
use super::empty_token_kind;
use super::is_kw_at;
use super::lemma_pop_bounds;
use super::list_next;
use super::name_at;
use super::outcome_matches;
use super::pop_at;
use super::type_checker::as_identifier;
use super::type_checker::check_binop;
use super::type_checker::check_field;
use super::type_checker::check_unop;
use super::type_checker::classify;
use super::type_checker::is_binop;
use super::type_checker::is_int_literal;
use super::type_checker::is_operator;
use super::type_checker::is_string_literal;
use super::type_checker::is_unop;
use crate::parser::constants::keyword_named;
use crate::parser::constants::keyword_of_string;
use crate::parser::constants::Keyword;
use crate::parser::error::ErrorKind;
use crate::parser::error::ParseError;
use crate::parser::lexer::scan;
use crate::parser::query::binop_of;
use crate::parser::query::BinaryOperation;
use crate::parser::query::string_to_binop;
use crate::parser::query::string_to_unop;
use crate::parser::query::unop_of;
use crate::parser::query::ExprView;
use crate::parser::query::Expression;
use crate::parser::query::IdentView;
use crate::parser::query::Identifier;
use crate::parser::query::QueryView;
use crate::parser::step::Step;
use crate::parser::Parser;

verus! {

/// The token is `AND` or `OR`.
pub open spec fn is_connector(t: Seq<char>) -> bool {
    keyword_named(t) == Some(Keyword::And) || keyword_named(t) == Some(Keyword::Or)
}

/// The texts of the tokens from `loc` up to the next `;` (exclusive), and
/// the cursor at that `;`.
pub open spec fn collect_from(q: Seq<char>, loc: int) -> Result<(Seq<Seq<char>>, int), ParseError>
    decreases q.len() - loc,
{
    if is_kw_at(q, loc, Keyword::Semicolon) {
        Ok((Seq::empty(), loc))
    } else if scan(q, loc).1 <= 0 || loc < 0 || loc > q.len() {
        Err(fail(empty_token_kind(q, loc), loc))
    } else if pop_at(q, loc).1 <= loc || pop_at(q, loc).1 > q.len() {
        Err(fail(empty_token_kind(q, loc), loc))
    } else {
        match collect_from(q, pop_at(q, loc).1) {
            Ok((ts, l)) => Ok((seq![scan(q, loc).0.text()].add(ts), l)),
            Err(e) => Err(e),
        }
    }
}

/// The tokens without one pair of parentheses around all of them.
pub open spec fn strip_parens(ts: Seq<Seq<char>>) -> Seq<Seq<char>> {
    if ts.len() >= 2 && ts[0] == Keyword::OpenParen.spec_text() && ts.last()
        == Keyword::CloseParen.spec_text() {
        ts.subrange(1, ts.len() - 1)
    } else {
        ts
    }
}

/// Folds the tokens from `i` on into the expression `acc` built so far,
/// left to right.  The first connector becomes the root: its left operand is
/// `acc`, its right one the fold of everything after it.  A unary operator
/// opens a node whose operand comes next; a binary operator takes `acc` as
/// its left operand and its right one comes next; any other token is
/// classified and fills the open operand.
pub open spec fn fold_condition(ts: Seq<Seq<char>>, i: int, acc: ExprView) -> Result<
    ExprView,
    ErrorKind,
>
    decreases ts.len() - i,
{
    if i < 0 || i >= ts.len() {
        Ok(acc)
    } else {
        let t = ts[i];
        if is_connector(t) {
            match fold_condition(ts, i + 1, ExprView::Empty) {
                Ok(rhs) => Ok(
                    ExprView::Binary(binop_of(keyword_named(t)->0)->0, Box::new(acc), Box::new(rhs)),
                ),
                Err(e) => Err(e),
            }
        } else if is_unop(t) {
            if acc is Empty {
                fold_condition(
                    ts,
                    i + 1,
                    ExprView::Unary(unop_of(keyword_named(t)->0)->0, Box::new(ExprView::Empty)),
                )
            } else {
                Err(ErrorKind::IdentifierAfterIdentifier)
            }
        } else if is_binop(t) {
            fold_condition(
                ts,
                i + 1,
                ExprView::Binary(
                    binop_of(keyword_named(t)->0)->0,
                    Box::new(acc),
                    Box::new(ExprView::Empty),
                ),
            )
        } else {
            match classify(t) {
                Err(k) => Err(k),
                Ok(x) => match acc {
                    ExprView::Empty => fold_condition(ts, i + 1, ExprView::Ident(x)),
                    ExprView::Unary(op, e) => if *e is Empty {
                        fold_condition(ts, i + 1, ExprView::Unary(op, Box::new(ExprView::Ident(x))))
                    } else {
                        Err(ErrorKind::IdentifierAfterIdentifier)
                    },
                    ExprView::Binary(op, l, r) => if *r is Empty {
                        fold_condition(ts, i + 1, ExprView::Binary(op, l, Box::new(ExprView::Ident(x))))
                    } else {
                        Err(ErrorKind::IdentifierAfterIdentifier)
                    },
                    ExprView::Ident(_) => Err(ErrorKind::IdentifierAfterIdentifier),
                },
            }
        }
    }
}

/// The expression has no open operand.
pub open spec fn is_complete(e: ExprView) -> bool
    decreases e,
{
    match e {
        ExprView::Empty => false,
        ExprView::Ident(_) => true,
        ExprView::Unary(_, a) => is_complete(*a),
        ExprView::Binary(_, a, b) => is_complete(*a) && is_complete(*b),
    }
}

/// The condition of a WHERE clause made of the tokens `ts`.
pub open spec fn condition_of(ts: Seq<Seq<char>>) -> Result<ExprView, ErrorKind> {
    match fold_condition(strip_parens(ts), 0, ExprView::Empty) {
        Ok(c) => if is_complete(c) {
            Ok(c)
        } else {
            Err(ErrorKind::MissingIdentifier)
        },
        Err(k) => Err(k),
    }
}

/// A read field is a name that is neither a literal nor an operator.
pub open spec fn is_field_name(w: Seq<char>) -> bool {
    !(is_int_literal(w) || is_string_literal(w) || is_operator(w))
}

/// One step of the grammar
/// `READ STRUCTURED ( field,* ) ON table ON database [WHERE condition] ;`
/// from state `step` with the cursor at `loc` and query `d`.
pub open spec fn read_step(q: Seq<char>, step: Step, loc: int, d: QueryView) -> Result<
    (Step, int, QueryView),
    ParseError,
> {
    match step {
        Step::ReadFieldIdentifier => match name_at(q, loc) {
            Ok((w, l)) => if !is_field_name(w) {
                Err(fail(ErrorKind::NotAnIdentifier, loc))
            } else {
                match list_next(q, l, Step::ReadFieldIdentifier, Step::ReadTableName) {
                    Ok((s, l2)) => Ok(
                        (s, l2, QueryView { read_fields: d.read_fields.push(IdentView::Field(w)), ..d }),
                    ),
                    Err(e) => Err(e),
                }
            },
            Err(e) => Err(e),
        },
        Step::ReadTableName => match name_at(q, loc) {
            Ok((w, l)) => match expect_at(q, l, Keyword::On) {
                Ok(l2) => Ok(
                    (Step::ReadDatabaseName, l2, QueryView { table_name: IdentView::Str(w), ..d }),
                ),
                Err(e) => Err(e),
            },
            Err(e) => Err(e),
        },
        Step::ReadDatabaseName => match name_at(q, loc) {
            Ok((w, l)) => {
                let d2 = QueryView { db_name: IdentView::Str(w), ..d };
                if is_kw_at(q, l, Keyword::Semicolon) {
                    Ok((Step::End, pop_at(q, l).1, d2))
                } else if is_kw_at(q, l, Keyword::Where) {
                    Ok((Step::ReadConditionPart, pop_at(q, l).1, d2))
                } else {
                    Err(fail(ErrorKind::UnexpectedToken, l))
                }
            },
            Err(e) => Err(e),
        },
        Step::ReadConditionPart => match collect_from(q, loc) {
            Ok((ts, l)) => match condition_of(ts) {
                Ok(c) => Ok((Step::End, pop_at(q, l).1, QueryView { conditions: c, ..d })),
                Err(k) => Err(fail(k, loc)),
            },
            Err(e) => Err(e),
        },
        _ => Err(fail(ErrorKind::UnexpectedToken, loc)),
    }
}


/// The texts of a list of token strings.
pub open spec fn texts(ts: Seq<String>) -> Seq<Seq<char>> {
    ts.map_values(|s: String| s@)
}

/// Drops one pair of parentheses that encloses all the tokens.
pub fn strip_enclosing_parens(ts: &mut Vec<String>)
    ensures
        texts(final(ts)@) == strip_parens(texts(old(ts)@)),
{
    let n = ts.len();
    if n >= 2 {
        let open = String::from_str(Keyword::OpenParen.text());
        let close = String::from_str(Keyword::CloseParen.text());
        if ts[0].eq(&open) && ts[n - 1].eq(&close) {
            let ghost before = ts@;
            ts.pop();
            ts.remove(0);
            assert(texts(ts@) =~= texts(before).subrange(1, n - 1));
        }
    }
}

/// Folds the tokens from `i` on into `acc`; see `fold_condition`.
pub fn fold_tokens(ts: &Vec<String>, i: usize, acc: Expression) -> (r: Result<Expression, ErrorKind>)
    requires
        i <= ts@.len(),
    ensures
        match fold_condition(texts(ts@), i as int, acc.view()) {
            Ok(e) => r is Ok && r->Ok_0.view() == e,
            Err(k) => r == Err::<Expression, ErrorKind>(k),
        },
    decreases ts@.len() - i,
{
    proof {
        reveal_with_fuel(Expression::view, 2);
    }
    if i >= ts.len() {
        return Ok(acc);
    }
    let t = &ts[i];
    assert(texts(ts@)[i as int] == t@);
    let kw = keyword_of_string(t);
    let conn = match kw {
        Some(Keyword::And) => Some(BinaryOperation::And),
        Some(Keyword::Or) => Some(BinaryOperation::Or),
        _ => None,
    };
    if let Some(op) = conn {
        return match fold_tokens(ts, i + 1, Expression::Empty) {
            Ok(rhs) => Ok(Expression::Binary(op, Box::new((acc, rhs)))),
            Err(k) => Err(k),
        };
    }
    if check_unop(t) {
        if !matches!(acc, Expression::Empty) {
            return Err(ErrorKind::IdentifierAfterIdentifier);
        }
        return match string_to_unop(t) {
            Some(op) => fold_tokens(ts, i + 1, Expression::Unary(op, Box::new(Expression::Empty))),
            None => Err(ErrorKind::NotAnIdentifier),
        };
    }
    if check_binop(t) {
        return match string_to_binop(t) {
            Some(op) => fold_tokens(
                ts,
                i + 1,
                Expression::Binary(op, Box::new((acc, Expression::Empty))),
            ),
            None => Err(ErrorKind::NotAnIdentifier),
        };
    }
    let x = match as_identifier(t) {
        Ok(x) => x,
        Err(k) => return Err(k),
    };
    match acc {
        Expression::Empty => fold_tokens(ts, i + 1, Expression::Identifier(x)),
        Expression::Unary(op, e) => {
            if matches!(*e, Expression::Empty) {
                fold_tokens(ts, i + 1, Expression::Unary(op, Box::new(Expression::Identifier(x))))
            } else {
                Err(ErrorKind::IdentifierAfterIdentifier)
            }
        },
        Expression::Binary(op, pair) => {
            let (l, r) = *pair;
            if matches!(r, Expression::Empty) {
                fold_tokens(ts, i + 1, Expression::Binary(op, Box::new((l, Expression::Identifier(x)))))
            } else {
                Err(ErrorKind::IdentifierAfterIdentifier)
            }
        },
        Expression::Identifier(_) => Err(ErrorKind::IdentifierAfterIdentifier),
    }
}

/// Whether the expression has no open operand.
pub fn check_complete(e: &Expression) -> (r: bool)
    ensures
        r == is_complete(e.view()),
    decreases e,
{
    match e {
        Expression::Empty => false,
        Expression::Identifier(_) => true,
        Expression::Unary(_, a) => check_complete(a),
        Expression::Binary(_, p) => check_complete(&p.0) && check_complete(&p.1),
    }
}

/// The condition of a WHERE clause made of the given tokens.
pub fn parse_condition(tokens: Vec<String>) -> (r: Result<Expression, ErrorKind>)
    ensures
        match condition_of(texts(tokens@)) {
            Ok(c) => r is Ok && r->Ok_0.view() == c,
            Err(k) => r == Err::<Expression, ErrorKind>(k),
        },
{
    let mut ts = tokens;
    strip_enclosing_parens(&mut ts);
    match fold_tokens(&ts, 0, Expression::Empty) {
        Ok(c) => if check_complete(&c) {
            Ok(c)
        } else {
            Err(ErrorKind::MissingIdentifier)
        },
        Err(k) => Err(k),
    }
}

impl Parser {
    /// Takes the tokens up to the next `;` and returns their texts; the
    /// cursor stops at the `;`.
    pub fn collect_condition(&mut self) -> (r: Result<Vec<String>, ParseError>)
        requires
            old(self).wf(),
        ensures
            final(self).same_text_and_data(old(self)),
            old(self).location <= final(self).location,
            match collect_from(old(self).query@, old(self).location as int) {
                Ok((ts, l)) => r is Ok && texts(r->Ok_0@) == ts && final(self).location == l,
                Err(e) => r == Err::<Vec<String>, ParseError>(e),
            },
    {
        let ghost q = self.query@;
        let ghost loc0 = self.location as int;
        let mut ts: Vec<String> = Vec::new();
        assert(texts(ts@) + seq![] =~= Seq::<Seq<char>>::empty());
        while !self.at_keyword(Keyword::Semicolon)
            invariant
                self.same_text_and_data(old(self)),
                old(self).location <= self.location,
                q == self.query@,
                loc0 == old(self).location as int,
                collect_from(q, loc0) == (match collect_from(q, self.location as int) {
                    Ok((ts2, l)) => Ok::<(Seq<Seq<char>>, int), ParseError>((texts(ts@) + ts2, l)),
                    Err(e) => Err(e),
                }),
            decreases self.query@.len() - self.location,
        {
            let loc = self.location;
            let (_, n) = self.peek_token();
            if n == 0 {
                return Err(self.empty_token_error(loc));
            }
            proof {
                lemma_pop_bounds(q, loc as int);
            }
            let ghost before = ts@;
            let t = self.pop();
            ts.push(t);
            proof {
                match collect_from(q, self.location as int) {
                    Ok((ts2, l)) => {
                        assert(texts(ts@) + ts2 =~= texts(before) + (seq![t@].add(ts2)));
                    },
                    Err(e) => {},
                }
            }
        }
        proof {
            assert(texts(ts@) + Seq::<Seq<char>>::empty() =~= texts(ts@));
        }
        Ok(ts)
    }
}

/// Runs one state of the read grammar.
pub fn reading(parser: &mut Parser, step: Step) -> (r: Result<Step, ParseError>)
    requires
        old(parser).wf(),
    ensures
        final(parser).wf(),
        final(parser).query == old(parser).query,
        final(parser).step == old(parser).step,
        r is Ok ==> old(parser).location < final(parser).location,
        r is Err ==> final(parser).query_data.view() == old(parser).query_data.view(),
        outcome_matches(
            r,
            final(parser),
            read_step(
                old(parser).query@,
                step,
                old(parser).location as int,
                old(parser).query_data.view(),
            ),
        ),
{
    let ghost d = parser.query_data.view();
    let loc = parser.location;
    match step {
        Step::ReadFieldIdentifier => {
            let w = match parser.pop_name() {
                Ok(w) => w,
                Err(e) => return Err(e),
            };
            if !check_field(&w) {
                return Err(ParseError { kind: ErrorKind::NotAnIdentifier, offset: loc, expected: None });
            }
            let next = parser.list_next(Step::ReadFieldIdentifier, Step::ReadTableName);
            if next.is_ok() {
                let ghost wv = w@;
                parser.query_data.read_fields.push(Identifier::Field(w));
                assert(parser.query_data.view().read_fields =~= d.read_fields.push(
                    IdentView::Field(wv),
                ));
            }
            next
        },
        Step::ReadTableName => {
            let w = match parser.pop_name() {
                Ok(w) => w,
                Err(e) => return Err(e),
            };
            if let Err(e) = parser.expect(Keyword::On) {
                return Err(e);
            }
            parser.query_data.table_name = Identifier::StringLiteral(w);
            Ok(Step::ReadDatabaseName)
        },
        Step::ReadDatabaseName => {
            let w = match parser.pop_name() {
                Ok(w) => w,
                Err(e) => return Err(e),
            };
            let l = parser.location;
            let next = if parser.at_keyword(Keyword::Semicolon) {
                Step::End
            } else if parser.at_keyword(Keyword::Where) {
                Step::ReadConditionPart
            } else {
                return Err(ParseError { kind: ErrorKind::UnexpectedToken, offset: l, expected: None });
            };
            parser.next_token();
            parser.query_data.db_name = Identifier::StringLiteral(w);
            Ok(next)
        },
        Step::ReadConditionPart => {
            let tokens = match parser.collect_condition() {
                Ok(ts) => ts,
                Err(e) => return Err(e),
            };
            let c = match parse_condition(tokens) {
                Ok(c) => c,
                Err(k) => return Err(ParseError { kind: k, offset: loc, expected: None }),
            };
            parser.next_token();
            parser.query_data.conditions = c;
            Ok(Step::End)
        },
        _ => Err(ParseError { kind: ErrorKind::UnexpectedToken, offset: loc, expected: None }),
    }
}

} // verus!
