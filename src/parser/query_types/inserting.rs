use vstd::prelude::*;

use super::type_checker::as_identifier;
use super::type_checker::classify;
use super::expect_at;
use super::fail;
use super::empty_token_kind;
use super::list_next;
use super::name_at;
use super::outcome_matches;
use crate::parser::constants::Keyword;
use crate::parser::error::ErrorKind;
use crate::parser::error::ParseError;
use crate::parser::lexer::advance;
use crate::parser::lexer::scan_value;
use crate::parser::query::IdentView;
use crate::parser::query::Identifier;
use crate::parser::query::QueryView;
use crate::parser::step::Step;
use crate::parser::Parser;

verus! {

/// The literal or name at `loc`, classified, and the cursor after it.
pub open spec fn value_at(q: Seq<char>, loc: int) -> Result<(IdentView, int), ParseError> {
    let v = scan_value(q, loc);
    if v.len() == 0 {
        Err(fail(empty_token_kind(q, loc), loc))
    } else {
        match classify(v) {
            Ok(x) => Ok((x, advance(q, loc, v.len() as int))),
            Err(k) => Err(fail(k, loc)),
        }
    }
}

/// One step of the grammar
/// `INSERT STRUCTURED ( value,* ) ON table STRUCTURED ( field,* ) ON database ;`
/// from state `step` with the cursor at `loc` and query `d`.
pub open spec fn insert_step(q: Seq<char>, step: Step, loc: int, d: QueryView) -> Result<
    (Step, int, QueryView),
    ParseError,
> {
    match step {
        Step::InsertValueIdentifier => match value_at(q, loc) {
            Ok((x, l)) => match list_next(q, l, Step::InsertValueIdentifier, Step::InsertTable) {
                Ok((s, l2)) => Ok((s, l2, QueryView { inserted_value: d.inserted_value.push(x), ..d })),
                Err(e) => Err(e),
            },
            Err(e) => Err(e),
        },
        Step::InsertTable => match name_at(q, loc) {
            Ok((w, l)) => match expect_at(q, l, Keyword::Structured) {
                Ok(l2) => match expect_at(q, l2, Keyword::OpenParen) {
                    Ok(l3) => Ok(
                        (
                            Step::InsertFieldIdentifier,
                            l3,
                            QueryView { table_name: IdentView::Str(w), ..d },
                        ),
                    ),
                    Err(e) => Err(e),
                },
                Err(e) => Err(e),
            },
            Err(e) => Err(e),
        },
        Step::InsertFieldIdentifier => match value_at(q, loc) {
            Ok((x, l)) => match list_next(q, l, Step::InsertFieldIdentifier, Step::InsertDatabase) {
                Ok((s, l2)) => Ok((s, l2, QueryView { inserted_field: d.inserted_field.push(x), ..d })),
                Err(e) => Err(e),
            },
            Err(e) => Err(e),
        },
        Step::InsertDatabase => match name_at(q, loc) {
            Ok((w, l)) => match expect_at(q, l, Keyword::Semicolon) {
                Ok(l2) => Ok((Step::End, l2, QueryView { db_name: IdentView::Str(w), ..d })),
                Err(e) => Err(e),
            },
            Err(e) => Err(e),
        },
        _ => Err(fail(ErrorKind::UnexpectedToken, loc)),
    }
}

impl Parser {
    /// Takes a literal or a name and classifies it.
    pub fn pop_value(&mut self) -> (r: Result<Identifier, ParseError>)
        requires
            old(self).wf(),
        ensures
            final(self).same_text_and_data(old(self)),
            old(self).location <= final(self).location,
            r is Ok ==> old(self).location < final(self).location,
            match value_at(old(self).query@, old(self).location as int) {
                Ok((x, l)) => r is Ok && r->Ok_0.view() == x && final(self).location == l,
                Err(e) => r == Err::<Identifier, ParseError>(e),
            },
    {
        let loc = self.location;
        let v = self.pop_string_or_identifier();
        if v.as_str().unicode_len() == 0 {
            return Err(self.empty_token_error(loc));
        }
        match as_identifier(&v) {
            Ok(x) => Ok(x),
            Err(k) => Err(ParseError { kind: k, offset: loc, expected: None }),
        }
    }
}

/// Runs one state of the insertion grammar.
pub fn inserting(parser: &mut Parser, step: Step) -> (r: Result<Step, ParseError>)
    requires
        old(parser).wf(),
    ensures
        final(parser).wf(),
        final(parser).query == old(parser).query,
        final(parser).step == old(parser).step,
        r is Ok ==> old(parser).location < final(parser).location,
        r is Err ==> final(parser).query_data.view() == old(parser).query_data.view(),
        outcome_matches(
            r,
            final(parser),
            insert_step(
                old(parser).query@,
                step,
                old(parser).location as int,
                old(parser).query_data.view(),
            ),
        ),
{
    let ghost d = parser.query_data.view();
    match step {
        Step::InsertValueIdentifier => {
            let x = match parser.pop_value() {
                Ok(x) => x,
                Err(e) => return Err(e),
            };
            let next = parser.list_next(Step::InsertValueIdentifier, Step::InsertTable);
            if next.is_ok() {
                parser.query_data.inserted_value.push(x);
                assert(parser.query_data.view().inserted_value =~= d.inserted_value.push(
                    x.view(),
                ));
            }
            next
        },
        Step::InsertTable => {
            let w = match parser.pop_name() {
                Ok(w) => w,
                Err(e) => return Err(e),
            };
            if let Err(e) = parser.expect(Keyword::Structured) {
                return Err(e);
            }
            if let Err(e) = parser.expect(Keyword::OpenParen) {
                return Err(e);
            }
            parser.query_data.table_name = Identifier::StringLiteral(w);
            Ok(Step::InsertFieldIdentifier)
        },
        Step::InsertFieldIdentifier => {
            let x = match parser.pop_value() {
                Ok(x) => x,
                Err(e) => return Err(e),
            };
            let next = parser.list_next(Step::InsertFieldIdentifier, Step::InsertDatabase);
            if next.is_ok() {
                parser.query_data.inserted_field.push(x);
                assert(parser.query_data.view().inserted_field =~= d.inserted_field.push(
                    x.view(),
                ));
            }
            next
        },
        Step::InsertDatabase => {
            let w = match parser.pop_name() {
                Ok(w) => w,
                Err(e) => return Err(e),
            };
            if let Err(e) = parser.expect(Keyword::Semicolon) {
                return Err(e);
            }
            parser.query_data.db_name = Identifier::StringLiteral(w);
            Ok(Step::End)
        },
        _ => Err(ParseError { kind: ErrorKind::UnexpectedToken, offset: parser.location, expected: None }),
    }
}

} // verus!
