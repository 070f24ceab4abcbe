use vstd::prelude::*;

pub mod constants;
pub mod error;
pub mod laws;
pub mod lexer;
pub mod query;
pub mod query_types;
pub mod step;

use constants::Keyword;
use error::ErrorKind;
use error::ParseError;
use lexer::space_end;
use lexer::Token;
use lexer::TokenView;
use query::empty_query_view;
use query::IdentView;
use query::Identifier;
use query::Query;
use query::QueryType;
use query::QueryView;
use query_types::expect_at;
use query_types::fail;
use query_types::inserting::inserting;
use query_types::inserting::insert_step;
use query_types::name_at;
use query_types::pop_at;
use query_types::reading::read_step;
use query_types::reading::reading;
use query_types::table_creation::table_creation;
use query_types::table_creation::table_step;
use step::Step;

verus! {

/// A statement parser: the statement text, a cursor into it, and the query
/// that parsing fills in.
#[derive(Debug)]
pub struct Parser {
    pub query: String,
    /// Cursor, as an index into the characters of `query`.
    pub location: usize,
    pub query_data: Query,
    /// The state the parser stands in.
    pub step: Step,
}

/// One step of the statement grammar, run by the handler of the statement
/// kind that `step` belongs to.
pub open spec fn grammar_step(q: Seq<char>, step: Step, loc: int, d: QueryView) -> Result<
    (Step, int, QueryView),
    ParseError,
> {
    if step.is_insert_step() {
        insert_step(q, step, loc, d)
    } else if step.is_read_step() {
        read_step(q, step, loc, d)
    } else {
        table_step(q, step, loc, d)
    }
}

/// Runs the grammar from state `step`, cursor `loc` and query `d` until the
/// state is `End`: the final cursor and query, or the first error.  Every
/// step that succeeds moves the cursor forward.
#[verifier::opaque]
pub open spec fn run(q: Seq<char>, step: Step, loc: int, d: QueryView) -> Result<
    (int, QueryView),
    ParseError,
>
    decreases q.len() - loc,
{
    if step == Step::End {
        Ok((loc, d))
    } else {
        match grammar_step(q, step, loc, d) {
            Ok((s2, l2, d2)) => if loc < l2 <= q.len() {
                run(q, s2, l2, d2)
            } else {
                Err(fail(ErrorKind::UnexpectedToken, loc))
            },
            Err(e) => Err(e),
        }
    }
}

/// The outcome of parsing statement `q` from scratch: the final cursor and
/// query, or the first error.  The first token picks the statement kind:
/// `DATABASE name ;` is read at once, `TABLE`, `INSERT STRUCTURED (` and
/// `READ STRUCTURED (` hand over to the grammar of their kind.
pub open spec fn parse_statement(q: Seq<char>) -> Result<(int, QueryView), ParseError> {
    let loc = space_end(q, 0);
    let (t, l) = pop_at(q, loc);
    let d = empty_query_view();
    if t == TokenView::Keyword(Keyword::Database) {
        match name_at(q, l) {
            Ok((w, l2)) => match expect_at(q, l2, Keyword::Semicolon) {
                Ok(l3) => Ok(
                    (
                        l3,
                        QueryView {
                            kind: QueryType::DatabaseCreation,
                            db_name: IdentView::Str(w),
                            ..d
                        },
                    ),
                ),
                Err(e) => Err(e),
            },
            Err(e) => Err(e),
        }
    } else if t == TokenView::Keyword(Keyword::Table) {
        run(q, Step::DefineTableName, l, QueryView { kind: QueryType::TableCreation, ..d })
    } else if t == TokenView::Keyword(Keyword::Insert) {
        match expect_at(q, l, Keyword::Structured) {
            Ok(l2) => match expect_at(q, l2, Keyword::OpenParen) {
                Ok(l3) => run(q, Step::InsertValueIdentifier, l3, QueryView { kind: QueryType::Insert, ..d }),
                Err(e) => Err(e),
            },
            Err(e) => Err(e),
        }
    } else if t == TokenView::Keyword(Keyword::Read) {
        match expect_at(q, l, Keyword::Structured) {
            Ok(l2) => match expect_at(q, l2, Keyword::OpenParen) {
                Ok(l3) => run(q, Step::ReadFieldIdentifier, l3, QueryView { kind: QueryType::Read, ..d }),
                Err(e) => Err(e),
            },
            Err(e) => Err(e),
        }
    } else {
        Err(fail(ErrorKind::UnknownStatement, loc))
    }
}

/// The statement text starts with `DATABASE`, `TABLE`, `INSERT` or `READ`.
pub open spec fn starts_statement(q: Seq<char>) -> bool {
    let t = pop_at(q, space_end(q, 0)).0;
    t == TokenView::Keyword(Keyword::Database) || t == TokenView::Keyword(Keyword::Table) || t
        == TokenView::Keyword(Keyword::Insert) || t == TokenView::Keyword(Keyword::Read)
}

/// What `parse` leaves behind, from parser `before` to parser `after` with
/// result `r`: the statement text is kept, and the outcome is that of
/// parsing the text from scratch.  A text that starts with no statement
/// keyword leaves the query as a fresh parser has it, kind included.
pub open spec fn parsed(before: &Parser, after: &Parser, r: Result<(), ParseError>) -> bool {
    &&& after.wf()
    &&& after.query == before.query
    &&& match parse_statement(before.query@) {
        Ok((l, d)) => r == Ok::<(), ParseError>(()) && after.location == l && after.query_data.view() == d && after.step
            == Step::End,
        Err(e) => r == Err::<(), ParseError>(e),
    }
    &&& !starts_statement(before.query@) ==> after.query_data.view() == empty_query_view()
}

impl Parser {
    /// The cursor lies within the statement.
    pub open spec fn wf(&self) -> bool {
        self.location <= self.query@.len()
    }

    /// A parser with no statement and an empty query.
    pub fn new() -> (r: Parser)
        ensures
            r.wf(),
            r.query@ == Seq::<char>::empty(),
            r.location == 0,
            r.query_data.view() == empty_query_view(),
            r.step == Step::Start,
    {
        Parser { query: String::new(), location: 0, query_data: Query::new(), step: Step::Start }
    }

    /// Forgets the statement and everything parsed from it.
    pub fn reset(&mut self)
        ensures
            final(self).wf(),
            final(self).query@ == Seq::<char>::empty(),
            final(self).location == 0,
            final(self).query_data.view() == empty_query_view(),
            final(self).step == Step::Start,
    {
        *self = Parser::new();
    }

    /// Replaces the statement to parse; the cursor and the query stay as
    /// they are (`parse` starts over from the beginning of the text).
    pub fn set_query(&mut self, query: String) -> (r: &mut Parser)
        ensures
            r.query == query,
            r.location == old(self).location,
            r.query_data == old(self).query_data,
            r.step == old(self).step,
            *final(self) == *final(r),
    {
        self.query = query;
        self
    }

    /// Runs the handler of the statement kind that `step` belongs to.
    fn run_step(&mut self, step: Step) -> (r: Result<Step, ParseError>)
        requires
            old(self).wf(),
        ensures
            final(self).wf(),
            final(self).query == old(self).query,
            final(self).step == old(self).step,
            r is Ok ==> old(self).location < final(self).location,
            r is Err ==> final(self).query_data.view() == old(self).query_data.view(),
            query_types::outcome_matches(
                r,
                final(self),
                grammar_step(
                    old(self).query@,
                    step,
                    old(self).location as int,
                    old(self).query_data.view(),
                ),
            ),
    {
        match step {
            Step::InsertValueIdentifier | Step::InsertTable | Step::InsertFieldIdentifier
            | Step::InsertDatabase => inserting(self, step),
            Step::ReadFieldIdentifier | Step::ReadTableName | Step::ReadDatabaseName
            | Step::ReadConditionPart => reading(self, step),
            _ => table_creation(self, step),
        }
    }

    /// Parses the statement from its start into a fresh query.  On success
    /// the parser stands at `End` with the query filled in; on failure the
    /// error tells what went wrong and where, and the query is not to be used.
    pub fn parse(&mut self) -> (r: Result<(), ParseError>)
        ensures
            parsed(old(self), final(self), r),
    {
        self.location = 0;
        self.query_data = Query::new();
        self.step = Step::Start;
        self.skip_spaces();
        let loc = self.location;
        let first = match self.next_token() {
            Token::Keyword(Keyword::Database) => {
                self.query_data._type = QueryType::DatabaseCreation;
                let w = match self.pop_name() {
                    Ok(w) => w,
                    Err(e) => return Err(e),
                };
                if let Err(e) = self.expect(Keyword::Semicolon) {
                    return Err(e);
                }
                self.query_data.db_name = Identifier::StringLiteral(w);
                self.step = Step::End;
                return Ok(());
            },
            Token::Keyword(Keyword::Table) => {
                self.query_data._type = QueryType::TableCreation;
                Step::DefineTableName
            },
            Token::Keyword(Keyword::Insert) => {
                self.query_data._type = QueryType::Insert;
                if let Err(e) = self.expect(Keyword::Structured) {
                    return Err(e);
                }
                if let Err(e) = self.expect(Keyword::OpenParen) {
                    return Err(e);
                }
                Step::InsertValueIdentifier
            },
            Token::Keyword(Keyword::Read) => {
                self.query_data._type = QueryType::Read;
                if let Err(e) = self.expect(Keyword::Structured) {
                    return Err(e);
                }
                if let Err(e) = self.expect(Keyword::OpenParen) {
                    return Err(e);
                }
                Step::ReadFieldIdentifier
            },
            _ => return Err(ParseError { kind: ErrorKind::UnknownStatement, offset: loc, expected: None }),
        };
        let ghost q = self.query@;
        let ghost goal = run(q, first, self.location as int, self.query_data.view());
        assert(goal == parse_statement(q));
        let mut curr = first;
        self.step = curr;
        while curr != Step::End
            invariant
                self.wf(),
                self.query@ == q,
                self.query == old(self).query,
                self.step == curr,
                goal == parse_statement(old(self).query@),
                starts_statement(old(self).query@),
                run(q, curr, self.location as int, self.query_data.view()) == goal,
            decreases self.query@.len() - self.location,
        {
            proof {
                reveal(run);
            }
            match self.run_step(curr) {
                Ok(next) => {
                    curr = next;
                    self.step = curr;
                },
                Err(e) => return Err(e),
            }
        }
        proof {
            reveal(run);
        }
        Ok(())
    }
}

impl ParseError {
    /// The text of the token at the error's offset in `statement`, a keyword
    /// in upper case: for an unknown statement, its first word; for a
    /// missing keyword, the token found in its place.
    pub fn found_token(&self, statement: &String) -> (r: String)
        requires
            self.offset <= statement@.len(),
        ensures
            r@ == lexer::scan(statement@, self.offset as int).0.text(),
    {
        let p = Parser {
            query: statement.clone(),
            location: self.offset,
            query_data: Query::new(),
            step: Step::Start,
        };
        p.peek()
    }
}

impl Default for Parser {
    fn default() -> (r: Parser)
        ensures
            r.wf(),
            r.query@ == Seq::<char>::empty(),
            r.location == 0,
            r.query_data.view() == empty_query_view(),
            r.step == Step::Start,
    {
        Parser::new()
    }
}

} // verus!
