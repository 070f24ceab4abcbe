use vstd::prelude::*;

use super::empty_token_kind;
use super::expect_at;
use super::fail;
use super::is_kw_at;
use super::name_at;
use super::outcome_matches;
use super::pop_at;
use super::type_checker::as_identifier;
use super::type_checker::check_binop;
use super::type_checker::check_int_literal;
use super::type_checker::check_unop;
use super::type_checker::classify;
use super::type_checker::digits_value;
use super::type_checker::is_binop;
use super::type_checker::is_int_literal;
use super::type_checker::is_unop;
use super::type_checker::parse_digits;
use crate::parser::constants::keyword_named;
use crate::parser::constants::Keyword;
use crate::parser::error::ErrorKind;
use crate::parser::error::ParseError;
use crate::parser::lexer::scan;
use crate::parser::lexer::Token;
use crate::parser::lexer::TokenView;
use crate::parser::query::binop_of;
use crate::parser::query::constraints_view;
use crate::parser::query::entries_view;
use crate::parser::query::exprs_view;
use crate::parser::query::idents_view;
use crate::parser::query::string_to_binop;
use crate::parser::query::string_to_unop;
use crate::parser::query::unop_of;
use crate::parser::query::Constraint;
use crate::parser::query::ConstraintType;
use crate::parser::query::ConstraintView;
use crate::parser::query::ExprView;
use crate::parser::query::Expression;
use crate::parser::query::IdentView;
use crate::parser::query::Identifier;
use crate::parser::query::Mode;
use crate::parser::query::QueryView;
use crate::parser::step::Step;
use crate::parser::Parser;

verus! {

/// The datatype names a field can be declared with.
pub open spec fn is_datatype(t: Seq<char>) -> bool {
    t == "STRING"@ || t == "OPTIONS"@ || t == "CHAR"@ || t == "BYTES"@ || t == "UINT"@ || t
        == "INT"@ || t == "FLOAT"@ || t == "TIMESTAMP"@
}

pub open spec fn is_letter(c: char) -> bool {
    ('a' <= c && c <= 'z') || ('A' <= c && c <= 'Z')
}

/// The name holds at least one letter.
pub open spec fn has_letter(w: Seq<char>) -> bool {
    exists|i: int| 0 <= i < w.len() && is_letter(#[trigger] w[i])
}

/// The mode a token names.
pub open spec fn mode_of(t: TokenView) -> Option<Mode> {
    match t {
        TokenView::Keyword(Keyword::Fadd) => Some(Mode::Fadd),
        TokenView::Keyword(Keyword::Fread) => Some(Mode::Fread),
        TokenView::Keyword(Keyword::Fdelete) => Some(Mode::Fdelete),
        TokenView::Keyword(Keyword::Lmem) => Some(Mode::Lmem),
        _ => None,
    }
}

/// The constraint kind a token names.
pub open spec fn constraint_of(t: TokenView) -> Option<ConstraintType> {
    match t {
        TokenView::Keyword(Keyword::Exists) => Some(ConstraintType::Exists),
        TokenView::Keyword(Keyword::Unique) => Some(ConstraintType::Unique),
        TokenView::Keyword(Keyword::PKey) => Some(ConstraintType::PKey),
        TokenView::Keyword(Keyword::FKey) => Some(ConstraintType::FKey),
        TokenView::Keyword(Keyword::Suchthat) => Some(ConstraintType::Suchthat),
        TokenView::Keyword(Keyword::Default) => Some(ConstraintType::Default),
        TokenView::Keyword(Keyword::Inc) => Some(ConstraintType::Inc),
        _ => None,
    }
}

/// An option of a field's datatype: any text for `OPTIONS`, an integer for
/// every other datatype.
pub open spec fn field_option(dtype: IdentView, text: Seq<char>) -> Result<IdentView, ErrorKind> {
    if dtype == IdentView::Dtype("OPTIONS"@) {
        Ok(IdentView::Str(text))
    } else if is_int_literal(text) && digits_value(text) <= i32::MAX {
        Ok(IdentView::Int(digits_value(text) as i32))
    } else {
        Err(ErrorKind::NotAnInteger)
    }
}

/// The query with a new field of datatype `dt`, no options and no name yet.
pub open spec fn add_field(d: QueryView, dt: Seq<char>) -> QueryView {
    QueryView {
        fields: d.fields.push((IdentView::Dtype(dt), Seq::empty(), IdentView::Field(Seq::empty()))),
        ..d
    }
}

/// The query with option `o` added to its last field.
pub open spec fn add_field_option(d: QueryView, o: IdentView) -> QueryView {
    let f = d.fields.last();
    QueryView { fields: d.fields.update(d.fields.len() - 1, (f.0, f.1.push(o), f.2)), ..d }
}

/// The query with its last field named `w`.
pub open spec fn name_field(d: QueryView, w: Seq<char>) -> QueryView {
    let f = d.fields.last();
    QueryView {
        fields: d.fields.update(d.fields.len() - 1, (f.0, f.1, IdentView::Field(w))),
        ..d
    }
}

/// The first constraint entry, from `i` on, of field `w`.
pub open spec fn entry_from(cs: Seq<(IdentView, Seq<ConstraintView>)>, w: Seq<char>, i: int) -> Option<
    int,
>
    decreases cs.len() - i,
{
    if i < 0 || i >= cs.len() {
        None
    } else if cs[i].0 == IdentView::Field(w) {
        Some(i)
    } else {
        entry_from(cs, w, i + 1)
    }
}

/// The constraint entry of the field that receives constraints.
pub open spec fn current_entry(d: QueryView) -> Option<int> {
    match d.curr_constraint {
        IdentView::Field(w) => entry_from(d.constraints, w, 0),
        _ => None,
    }
}

/// The query after `ON w` in a constraint list: field `w` receives the
/// constraints that follow, starting from none.
pub open spec fn open_entry(d: QueryView, w: Seq<char>) -> QueryView {
    let key = IdentView::Field(w);
    QueryView {
        constraints: match entry_from(d.constraints, w, 0) {
            Some(j) => d.constraints.update(j, (key, Seq::empty())),
            None => d.constraints.push((key, Seq::empty())),
        },
        curr_constraint: key,
        ..d
    }
}

/// The query with a constraint of kind `ct` added to the current field.
pub open spec fn add_constraint(d: QueryView, ct: ConstraintType) -> Option<QueryView> {
    match current_entry(d) {
        Some(j) => Some(
            QueryView {
                constraints: d.constraints.update(
                    j,
                    (
                        d.constraints[j].0,
                        d.constraints[j].1.push(ConstraintView { constraint_type: ct, options: Seq::empty() }),
                    ),
                ),
                ..d
            },
        ),
        None => None,
    }
}

/// A new option expression started by token `t`.
pub open spec fn push_option(opts: Seq<ExprView>, t: Seq<char>) -> Result<Seq<ExprView>, ErrorKind> {
    if is_unop(t) {
        Ok(opts.push(ExprView::Unary(unop_of(keyword_named(t)->0)->0, Box::new(ExprView::Empty))))
    } else {
        match classify(t) {
            Ok(x) => Ok(opts.push(ExprView::Ident(x))),
            Err(k) => Err(k),
        }
    }
}

/// The option expressions of a constraint after token `t`: it fills the
/// open operand of the last one, makes the last one the left operand of a
/// binary operator, or starts a new option.
pub open spec fn fold_option(opts: Seq<ExprView>, t: Seq<char>) -> Result<Seq<ExprView>, ErrorKind> {
    if opts.len() == 0 {
        push_option(opts, t)
    } else {
        let n = opts.len() - 1;
        match opts.last() {
            ExprView::Binary(op, l, r) => if *r is Empty {
                match classify(t) {
                    Ok(x) => Ok(opts.update(n, ExprView::Binary(op, l, Box::new(ExprView::Ident(x))))),
                    Err(k) => Err(k),
                }
            } else {
                push_option(opts, t)
            },
            ExprView::Unary(op, e) => if *e is Empty {
                match classify(t) {
                    Ok(x) => Ok(opts.update(n, ExprView::Unary(op, Box::new(ExprView::Ident(x))))),
                    Err(k) => Err(k),
                }
            } else {
                push_option(opts, t)
            },
            ExprView::Ident(_) => if is_binop(t) {
                Ok(
                    opts.update(
                        n,
                        ExprView::Binary(
                            binop_of(keyword_named(t)->0)->0,
                            Box::new(opts.last()),
                            Box::new(ExprView::Empty),
                        ),
                    ),
                )
            } else {
                push_option(opts, t)
            },
            ExprView::Empty => push_option(opts, t),
        }
    }
}

/// The query after option token `t` of the current constraint.
pub open spec fn add_constraint_option(d: QueryView, t: Seq<char>) -> Result<QueryView, ErrorKind> {
    match current_entry(d) {
        Some(j) => {
            let cs = d.constraints[j].1;
            if cs.len() == 0 {
                Err(ErrorKind::ExpectedConstraint)
            } else {
                let c = cs.last();
                match fold_option(c.options, t) {
                    Ok(opts) => Ok(
                        QueryView {
                            constraints: d.constraints.update(
                                j,
                                (
                                    d.constraints[j].0,
                                    cs.update(
                                        cs.len() - 1,
                                        ConstraintView { options: opts, ..c },
                                    ),
                                ),
                            ),
                            ..d
                        },
                    ),
                    Err(k) => Err(k),
                }
            }
        },
        None => Err(ErrorKind::ExpectedConstraint),
    }
}

/// What may follow a constraint at `loc`: its options `(`, when `options`
/// allows them, another constraint, `,` and the next field, or `)`.
pub open spec fn after_constraint(q: Seq<char>, loc: int, d: QueryView, options: bool) -> Result<
    (Step, int, QueryView),
    ParseError,
> {
    if options && is_kw_at(q, loc, Keyword::OpenParen) {
        Ok((Step::DefineConstraintOption, pop_at(q, loc).1, d))
    } else if constraint_of(scan(q, loc).0) is Some {
        Ok((Step::DefineConstraint, loc, d))
    } else if is_kw_at(q, loc, Keyword::Comma) {
        Ok((Step::DefineConstraintOn, pop_at(q, loc).1, d))
    } else if is_kw_at(q, loc, Keyword::CloseParen) {
        Ok((Step::DefineConstraintCloseParen, pop_at(q, loc).1, d))
    } else {
        Err(fail(ErrorKind::UnexpectedToken, loc))
    }
}

/// One step of the grammar
/// `TABLE t ON d STRUCTURED ( DT(opt,*) f,+ ) [MODE m+] [CONSTRAINED ( ON f c+,+ )] [MODE m+] ;`
/// from state `step` with the cursor at `loc` and query `d`.
pub open spec fn table_step(q: Seq<char>, step: Step, loc: int, d: QueryView) -> Result<
    (Step, int, QueryView),
    ParseError,
> {
    let (t, l) = pop_at(q, loc);
    match step {
        Step::DefineTableName => match name_at(q, loc) {
            Ok((w, l1)) => match expect_at(q, l1, Keyword::On) {
                Ok(l2) => Ok(
                    (Step::DefineTableDatabase, l2, QueryView { table_name: IdentView::Str(w), ..d }),
                ),
                Err(e) => Err(e),
            },
            Err(e) => Err(e),
        },
        Step::DefineTableDatabase => match name_at(q, loc) {
            Ok((w, l1)) => match expect_at(q, l1, Keyword::Structured) {
                Ok(l2) => match expect_at(q, l2, Keyword::OpenParen) {
                    Ok(l3) => Ok(
                        (Step::DefineFieldDatatype, l3, QueryView { db_name: IdentView::Str(w), ..d }),
                    ),
                    Err(e) => Err(e),
                },
                Err(e) => Err(e),
            },
            Err(e) => Err(e),
        },
        Step::DefineFieldDatatype => if !(t is Text && is_datatype(t.text())) {
            Err(fail(ErrorKind::ExpectedDatatype, loc))
        } else {
            let d2 = add_field(d, t.text());
            match expect_at(q, l, Keyword::OpenParen) {
                Ok(l2) => if is_kw_at(q, l2, Keyword::CloseParen) {
                    Ok((Step::DefineFieldIdentifier, pop_at(q, l2).1, d2))
                } else {
                    Ok((Step::DefineFieldDatatypeOption, l2, d2))
                },
                Err(e) => Err(e),
            }
        },
        Step::DefineFieldDatatypeOption => if t.text().len() == 0 {
            Err(fail(empty_token_kind(q, loc), loc))
        } else if d.fields.len() == 0 {
            Err(fail(ErrorKind::ExpectedDatatype, loc))
        } else {
            match field_option(d.fields.last().0, t.text()) {
                Ok(o) => {
                    let d2 = add_field_option(d, o);
                    if is_kw_at(q, l, Keyword::CloseParen) {
                        Ok((Step::DefineFieldIdentifier, pop_at(q, l).1, d2))
                    } else if is_kw_at(q, l, Keyword::Comma) {
                        Ok((Step::DefineFieldDatatypeOption, pop_at(q, l).1, d2))
                    } else {
                        Err(fail(ErrorKind::UnexpectedToken, l))
                    }
                },
                Err(k) => Err(fail(k, loc)),
            }
        },
        Step::DefineFieldIdentifier => match name_at(q, loc) {
            Ok((w, l1)) => if !has_letter(w) {
                Err(fail(ErrorKind::DigitsOnlyFieldName, loc))
            } else if d.fields.len() == 0 {
                Err(fail(ErrorKind::ExpectedDatatype, loc))
            } else {
                let d2 = name_field(d, w);
                if is_kw_at(q, l1, Keyword::CloseParen) {
                    Ok((Step::DefineTableStructureCloseParen, pop_at(q, l1).1, d2))
                } else if is_kw_at(q, l1, Keyword::Comma) {
                    Ok((Step::DefineFieldDatatype, pop_at(q, l1).1, d2))
                } else {
                    Err(fail(ErrorKind::UnexpectedToken, l1))
                }
            },
            Err(e) => Err(e),
        },
        Step::DefineTableStructureCloseParen => if t == TokenView::Keyword(Keyword::Semicolon) {
            Ok((Step::End, l, d))
        } else if t == TokenView::Keyword(Keyword::Mode) {
            Ok((Step::DefineTableMode, l, d))
        } else if t == TokenView::Keyword(Keyword::Constrained) {
            match expect_at(q, l, Keyword::OpenParen) {
                Ok(l2) => Ok((Step::DefineConstraintOn, l2, d)),
                Err(e) => Err(e),
            }
        } else {
            Err(fail(ErrorKind::UnexpectedToken, loc))
        },
        Step::DefineTableMode => match mode_of(t) {
            Some(m) => {
                let d2 = QueryView { modes: d.modes.push(m), ..d };
                if is_kw_at(q, l, Keyword::Semicolon) {
                    Ok((Step::End, pop_at(q, l).1, d2))
                } else if mode_of(scan(q, l).0) is Some {
                    Ok((Step::DefineTableMode, l, d2))
                } else {
                    Err(fail(ErrorKind::UnexpectedToken, l))
                }
            },
            None => Err(fail(ErrorKind::ExpectedMode, loc)),
        },
        Step::DefineConstraintOn => match expect_at(q, loc, Keyword::On) {
            Ok(l1) => Ok((Step::DefineConstraintIdentifier, l1, d)),
            Err(e) => Err(e),
        },
        Step::DefineConstraintIdentifier => match name_at(q, loc) {
            Ok((w, l1)) => Ok((Step::DefineConstraint, l1, open_entry(d, w))),
            Err(e) => Err(e),
        },
        Step::DefineConstraint => match constraint_of(t) {
            Some(ct) => match add_constraint(d, ct) {
                Some(d2) => after_constraint(q, l, d2, true),
                None => Err(fail(ErrorKind::ExpectedConstraint, loc)),
            },
            None => Err(fail(ErrorKind::ExpectedConstraint, loc)),
        },
        Step::DefineConstraintOption => if t.text().len() == 0 {
            Err(fail(empty_token_kind(q, loc), loc))
        } else if t == TokenView::Keyword(Keyword::CloseParen) {
            after_constraint(q, l, d, false)
        } else if t == TokenView::Keyword(Keyword::Comma) {
            Ok((Step::DefineConstraintOption, l, d))
        } else {
            match add_constraint_option(d, t.text()) {
                Ok(d2) => Ok((Step::DefineConstraintOption, l, d2)),
                Err(k) => Err(fail(k, loc)),
            }
        },
        Step::DefineConstraintCloseParen => if t == TokenView::Keyword(Keyword::Mode) {
            Ok((Step::DefineTableMode, l, d))
        } else if t == TokenView::Keyword(Keyword::Semicolon) {
            Ok((Step::End, l, d))
        } else {
            Err(fail(ErrorKind::UnexpectedToken, loc))
        },
        _ => Err(fail(ErrorKind::UnexpectedToken, loc)),
    }
}


/// Whether the token is one of the datatype names.
pub fn check_datatype(t: &String) -> (r: bool)
    ensures
        r == is_datatype(t@),
{
    t.eq(&String::from_str("STRING")) || t.eq(&String::from_str("OPTIONS")) || t.eq(
        &String::from_str("CHAR"),
    ) || t.eq(&String::from_str("BYTES")) || t.eq(&String::from_str("UINT")) || t.eq(
        &String::from_str("INT"),
    ) || t.eq(&String::from_str("FLOAT")) || t.eq(&String::from_str("TIMESTAMP"))
}

/// Whether the name holds a letter.
pub fn check_has_letter(w: &String) -> (r: bool)
    ensures
        r == has_letter(w@),
{
    let n = w.as_str().unicode_len();
    let mut i: usize = 0;
    while i < n
        invariant
            n == w@.len(),
            i <= n,
            forall|j: int| 0 <= j < i ==> !is_letter(#[trigger] w@[j]),
        decreases n - i,
    {
        let c = w.as_str().get_char(i);
        if ('a' <= c && c <= 'z') || ('A' <= c && c <= 'Z') {
            return true;
        }
        i += 1;
    }
    false
}

/// The mode a token names.
pub fn mode_of_token(t: &Token) -> (r: Option<Mode>)
    ensures
        r == mode_of(t.view()),
{
    match t {
        Token::Keyword(Keyword::Fadd) => Some(Mode::Fadd),
        Token::Keyword(Keyword::Fread) => Some(Mode::Fread),
        Token::Keyword(Keyword::Fdelete) => Some(Mode::Fdelete),
        Token::Keyword(Keyword::Lmem) => Some(Mode::Lmem),
        _ => None,
    }
}

/// The constraint kind a token names.
pub fn constraint_of_token(t: &Token) -> (r: Option<ConstraintType>)
    ensures
        r == constraint_of(t.view()),
{
    match t {
        Token::Keyword(Keyword::Exists) => Some(ConstraintType::Exists),
        Token::Keyword(Keyword::Unique) => Some(ConstraintType::Unique),
        Token::Keyword(Keyword::PKey) => Some(ConstraintType::PKey),
        Token::Keyword(Keyword::FKey) => Some(ConstraintType::FKey),
        Token::Keyword(Keyword::Suchthat) => Some(ConstraintType::Suchthat),
        Token::Keyword(Keyword::Default) => Some(ConstraintType::Default),
        Token::Keyword(Keyword::Inc) => Some(ConstraintType::Inc),
        _ => None,
    }
}

/// The spelling of a token.
pub fn token_text(t: &Token) -> (r: String)
    ensures
        r@ == t.view().text(),
{
    match t {
        Token::Keyword(k) => String::from_str(k.text()),
        Token::Text(s) => s.clone(),
    }
}

/// An option of a field of datatype `dtype`; see `field_option`.
pub fn make_field_option(dtype: &Identifier, text: &String) -> (r: Result<Identifier, ErrorKind>)
    ensures
        match field_option(dtype.view(), text@) {
            Ok(o) => r is Ok && r->Ok_0.view() == o,
            Err(k) => r == Err::<Identifier, ErrorKind>(k),
        },
{
    if let Identifier::Datatype(name) = dtype {
        if name.eq(&String::from_str("OPTIONS")) {
            return Ok(Identifier::StringLiteral(text.clone()));
        }
    }
    if check_int_literal(text) {
        if let Some(v) = parse_digits(text) {
            return Ok(Identifier::IntLiteral(v));
        }
    }
    Err(ErrorKind::NotAnInteger)
}

/// The entry of field `w` among the constraint entries.
pub fn find_entry(cs: &Vec<(Identifier, Vec<Constraint>)>, w: &String) -> (r: Option<usize>)
    ensures
        match r {
            Some(j) => entry_from(entries_view(cs@), w@, 0) == Some(j as int) && j < cs@.len(),
            None => entry_from(entries_view(cs@), w@, 0) is None,
        },
{
    let mut i: usize = 0;
    while i < cs.len()
        invariant
            i <= cs@.len(),
            entry_from(entries_view(cs@), w@, 0) == entry_from(entries_view(cs@), w@, i as int),
        decreases cs.len() - i,
    {
        let same = match &cs[i].0 {
            Identifier::Field(name) => name.eq(w),
            _ => false,
        };
        assert(same == (entries_view(cs@)[i as int].0 == IdentView::Field(w@)));
        if same {
            return Some(i);
        }
        i += 1;
    }
    None
}

/// A new option expression started by token `t`; see `push_option`.
pub fn push_option_expr(opts: Vec<Expression>, t: &String) -> (r: Result<Vec<Expression>, (ErrorKind, Vec<Expression>)>)
    ensures
        match push_option(exprs_view(opts@), t@) {
            Ok(o) => r is Ok && exprs_view(r->Ok_0@) == o,
            Err(k) => r is Err && r->Err_0.0 == k && exprs_view(r->Err_0.1@) == exprs_view(opts@),
        },
{
    proof {
        reveal_with_fuel(Expression::view, 2);
    }
    let mut opts = opts;
    let ghost before = opts@;
    if check_unop(t) {
        match string_to_unop(t) {
            Some(op) => {
                opts.push(Expression::Unary(op, Box::new(Expression::Empty)));
                assert(exprs_view(opts@) =~= exprs_view(before).push(
                    ExprView::Unary(op, Box::new(ExprView::Empty)),
                ));
                Ok(opts)
            },
            None => Err((ErrorKind::NotAnIdentifier, opts)),
        }
    } else {
        match as_identifier(t) {
            Ok(x) => {
                let ghost xv = x.view();
                opts.push(Expression::Identifier(x));
                assert(exprs_view(opts@) =~= exprs_view(before).push(ExprView::Ident(xv)));
                Ok(opts)
            },
            Err(k) => Err((k, opts)),
        }
    }
}

/// The option expressions of a constraint after token `t`; see `fold_option`.
pub fn fold_option_expr(opts: Vec<Expression>, t: &String) -> (r: Result<Vec<Expression>, (ErrorKind, Vec<Expression>)>)
    ensures
        match fold_option(exprs_view(opts@), t@) {
            Ok(o) => r is Ok && exprs_view(r->Ok_0@) == o,
            Err(k) => r is Err && r->Err_0.0 == k && exprs_view(r->Err_0.1@) == exprs_view(opts@),
        },
{
    proof {
        reveal_with_fuel(Expression::view, 2);
    }
    let mut opts = opts;
    let ghost ov = exprs_view(opts@);
    let n = opts.len();
    if n == 0 {
        return push_option_expr(opts, t);
    }
    let last = match opts.pop() {
        Some(e) => e,
        None => return push_option_expr(opts, t),
    };
    let ghost rest = opts@;
    assert(exprs_view(rest) =~= ov.drop_last());
    assert(ov.last() == last.view());
    match last {
        Expression::Binary(op, pair) => {
            let (l, r) = *pair;
            if matches!(r, Expression::Empty) {
                match as_identifier(t) {
                    Ok(x) => {
                        let e = Expression::Binary(op, Box::new((l, Expression::Identifier(x))));
                        let ghost ev = e.view();
                        opts.push(e);
                        assert(exprs_view(opts@) =~= ov.update(n - 1, ev));
                        Ok(opts)
                    },
                    Err(k) => {
                        opts.push(Expression::Binary(op, Box::new((l, r))));
                        assert(exprs_view(opts@) =~= ov);
                        Err((k, opts))
                    },
                }
            } else {
                opts.push(Expression::Binary(op, Box::new((l, r))));
                assert(exprs_view(opts@) =~= ov);
                push_option_expr(opts, t)
            }
        },
        Expression::Unary(op, e) => {
            if matches!(*e, Expression::Empty) {
                match as_identifier(t) {
                    Ok(x) => {
                        let e2 = Expression::Unary(op, Box::new(Expression::Identifier(x)));
                        let ghost ev = e2.view();
                        opts.push(e2);
                        assert(exprs_view(opts@) =~= ov.update(n - 1, ev));
                        Ok(opts)
                    },
                    Err(k) => {
                        opts.push(Expression::Unary(op, e));
                        assert(exprs_view(opts@) =~= ov);
                        Err((k, opts))
                    },
                }
            } else {
                opts.push(Expression::Unary(op, e));
                assert(exprs_view(opts@) =~= ov);
                push_option_expr(opts, t)
            }
        },
        Expression::Identifier(x) => {
            if check_binop(t) {
                match string_to_binop(t) {
                    Some(op) => {
                        let e = Expression::Binary(
                            op,
                            Box::new((Expression::Identifier(x), Expression::Empty)),
                        );
                        let ghost ev = e.view();
                        opts.push(e);
                        assert(exprs_view(opts@) =~= ov.update(n - 1, ev));
                        Ok(opts)
                    },
                    None => {
                        opts.push(Expression::Identifier(x));
                        assert(exprs_view(opts@) =~= ov);
                        Err((ErrorKind::NotAnIdentifier, opts))
                    },
                }
            } else {
                opts.push(Expression::Identifier(x));
                assert(exprs_view(opts@) =~= ov);
                push_option_expr(opts, t)
            }
        },
        Expression::Empty => {
            opts.push(Expression::Empty);
            assert(exprs_view(opts@) =~= ov);
            push_option_expr(opts, t)
        },
    }
}


impl Parser {
    /// Reads what follows a constraint; see `after_constraint`.
    fn after_constraint(&mut self, options: bool) -> (r: Result<Step, ParseError>)
        requires
            old(self).wf(),
        ensures
            final(self).same_text_and_data(old(self)),
            old(self).location <= final(self).location,
            outcome_matches(
                r,
                final(self),
                after_constraint(
                    old(self).query@,
                    old(self).location as int,
                    old(self).query_data.view(),
                    options,
                ),
            ),
    {
        let loc = self.location;
        if options && self.at_keyword(Keyword::OpenParen) {
            self.next_token();
            return Ok(Step::DefineConstraintOption);
        }
        let t = self.peek_token_only();
        if constraint_of_token(&t).is_some() {
            Ok(Step::DefineConstraint)
        } else if self.at_keyword(Keyword::Comma) {
            self.next_token();
            Ok(Step::DefineConstraintOn)
        } else if self.at_keyword(Keyword::CloseParen) {
            self.next_token();
            Ok(Step::DefineConstraintCloseParen)
        } else {
            Err(ParseError { kind: ErrorKind::UnexpectedToken, offset: loc, expected: None })
        }
    }
}

/// The constraint entry of the field that receives constraints.
fn current_entry_index(parser: &Parser) -> (r: Option<usize>)
    ensures
        match r {
            Some(j) => current_entry(parser.query_data.view()) == Some(j as int) && j
                < parser.query_data.constraints@.len(),
            None => current_entry(parser.query_data.view()) is None,
        },
{
    match &parser.query_data.curr_constraint {
        Identifier::Field(w) => find_entry(&parser.query_data.constraints, w),
        _ => None,
    }
}

/// A field declaration starts: its datatype and `(`.
fn define_field_datatype(parser: &mut Parser) -> (r: Result<Step, ParseError>)
    requires
        old(parser).wf(),
    ensures
        final(parser).wf(),
        final(parser).query == old(parser).query,
        final(parser).step == old(parser).step,
        r is Ok ==> old(parser).location < final(parser).location,
        r is Err ==> final(parser).query_data.view() == old(parser).query_data.view(),
        outcome_matches(
            r,
            final(parser),
            table_step(
                old(parser).query@,
                Step::DefineFieldDatatype,
                old(parser).location as int,
                old(parser).query_data.view(),
            ),
        ),
{
    let ghost d = parser.query_data.view();
    let loc = parser.location;
        let t = parser.next_token();
        let name = match t {
            Token::Text(s) => s,
            Token::Keyword(_) => {
                return Err(ParseError { kind: ErrorKind::ExpectedDatatype, offset: loc, expected: None });
            },
        };
        if !check_datatype(&name) {
            return Err(ParseError { kind: ErrorKind::ExpectedDatatype, offset: loc, expected: None });
        }
        if let Err(e) = parser.expect(Keyword::OpenParen) {
            return Err(e);
        }
        let ghost nv = name@;
        parser.query_data.fields.push(
            (Identifier::Datatype(name), Vec::new(), Identifier::Field(String::new())),
        );
        assert(idents_view(Seq::<Identifier>::empty()) =~= Seq::<IdentView>::empty());
        assert(parser.query_data.view().fields =~= add_field(d, nv).fields);
        if parser.at_keyword(Keyword::CloseParen) {
            parser.next_token();
            Ok(Step::DefineFieldIdentifier)
        } else {
            Ok(Step::DefineFieldDatatypeOption)
        }
}

/// An option of the datatype of the last field, then `,` or `)`.
fn define_field_datatype_option(parser: &mut Parser) -> (r: Result<Step, ParseError>)
    requires
        old(parser).wf(),
    ensures
        final(parser).wf(),
        final(parser).query == old(parser).query,
        final(parser).step == old(parser).step,
        r is Ok ==> old(parser).location < final(parser).location,
        r is Err ==> final(parser).query_data.view() == old(parser).query_data.view(),
        outcome_matches(
            r,
            final(parser),
            table_step(
                old(parser).query@,
                Step::DefineFieldDatatypeOption,
                old(parser).location as int,
                old(parser).query_data.view(),
            ),
        ),
{
    let ghost d = parser.query_data.view();
    let loc = parser.location;
        let t = parser.next_token();
        let text = token_text(&t);
        if text.as_str().unicode_len() == 0 {
            return Err(parser.empty_token_error(loc));
        }
        let n = parser.query_data.fields.len();
        if n == 0 {
            return Err(ParseError { kind: ErrorKind::ExpectedDatatype, offset: loc, expected: None });
        }
        let o = match make_field_option(&parser.query_data.fields[n - 1].0, &text) {
            Ok(o) => o,
            Err(k) => return Err(ParseError { kind: k, offset: loc, expected: None }),
        };
        let l = parser.location;
        let next = if parser.at_keyword(Keyword::CloseParen) {
            Step::DefineFieldIdentifier
        } else if parser.at_keyword(Keyword::Comma) {
            Step::DefineFieldDatatypeOption
        } else {
            return Err(ParseError { kind: ErrorKind::UnexpectedToken, offset: l, expected: None });
        };
        parser.next_token();
        let ghost ov = o.view();
        let ghost old_fields = parser.query_data.fields@;
        parser.query_data.fields[n - 1].1.push(o);
        assert(idents_view(parser.query_data.fields@[n - 1].1@) =~= idents_view(
            old_fields[n - 1].1@,
        ).push(ov));
        assert(parser.query_data.view().fields =~= add_field_option(d, ov).fields);
        Ok(next)
}

/// The name of the last field, then `,` or `)`.
fn define_field_identifier(parser: &mut Parser) -> (r: Result<Step, ParseError>)
    requires
        old(parser).wf(),
    ensures
        final(parser).wf(),
        final(parser).query == old(parser).query,
        final(parser).step == old(parser).step,
        r is Ok ==> old(parser).location < final(parser).location,
        r is Err ==> final(parser).query_data.view() == old(parser).query_data.view(),
        outcome_matches(
            r,
            final(parser),
            table_step(
                old(parser).query@,
                Step::DefineFieldIdentifier,
                old(parser).location as int,
                old(parser).query_data.view(),
            ),
        ),
{
    let ghost d = parser.query_data.view();
    let loc = parser.location;
        let w = match parser.pop_name() {
            Ok(w) => w,
            Err(e) => return Err(e),
        };
        if !check_has_letter(&w) {
            return Err(ParseError { kind: ErrorKind::DigitsOnlyFieldName, offset: loc, expected: None });
        }
        let n = parser.query_data.fields.len();
        if n == 0 {
            return Err(ParseError { kind: ErrorKind::ExpectedDatatype, offset: loc, expected: None });
        }
        let l = parser.location;
        let next = if parser.at_keyword(Keyword::CloseParen) {
            Step::DefineTableStructureCloseParen
        } else if parser.at_keyword(Keyword::Comma) {
            Step::DefineFieldDatatype
        } else {
            return Err(ParseError { kind: ErrorKind::UnexpectedToken, offset: l, expected: None });
        };
        parser.next_token();
        let ghost wv = w@;
        parser.query_data.fields[n - 1].2 = Identifier::Field(w);
        assert(parser.query_data.view().fields =~= name_field(d, wv).fields);
        Ok(next)
}

/// A mode, then `;` or another mode.
fn define_table_mode(parser: &mut Parser) -> (r: Result<Step, ParseError>)
    requires
        old(parser).wf(),
    ensures
        final(parser).wf(),
        final(parser).query == old(parser).query,
        final(parser).step == old(parser).step,
        r is Ok ==> old(parser).location < final(parser).location,
        r is Err ==> final(parser).query_data.view() == old(parser).query_data.view(),
        outcome_matches(
            r,
            final(parser),
            table_step(
                old(parser).query@,
                Step::DefineTableMode,
                old(parser).location as int,
                old(parser).query_data.view(),
            ),
        ),
{
    let ghost d = parser.query_data.view();
    let loc = parser.location;
        let t = parser.next_token();
        let m = match mode_of_token(&t) {
            Some(m) => m,
            None => return Err(ParseError { kind: ErrorKind::ExpectedMode, offset: loc, expected: None }),
        };
        let l = parser.location;
        let next = if parser.at_keyword(Keyword::Semicolon) {
            parser.next_token();
            Step::End
        } else if mode_of_token(&parser.peek_token_only()).is_some() {
            Step::DefineTableMode
        } else {
            return Err(ParseError { kind: ErrorKind::UnexpectedToken, offset: l, expected: None });
        };
        parser.query_data.modes.push(m);
        Ok(next)
}

/// The field after `ON` in a constraint list.
fn define_constraint_identifier(parser: &mut Parser) -> (r: Result<Step, ParseError>)
    requires
        old(parser).wf(),
    ensures
        final(parser).wf(),
        final(parser).query == old(parser).query,
        final(parser).step == old(parser).step,
        r is Ok ==> old(parser).location < final(parser).location,
        r is Err ==> final(parser).query_data.view() == old(parser).query_data.view(),
        outcome_matches(
            r,
            final(parser),
            table_step(
                old(parser).query@,
                Step::DefineConstraintIdentifier,
                old(parser).location as int,
                old(parser).query_data.view(),
            ),
        ),
{
    let ghost d = parser.query_data.view();
    let loc = parser.location;
        let w = match parser.pop_name() {
            Ok(w) => w,
            Err(e) => return Err(e),
        };
        let ghost wv = w@;
        assert(constraints_view(Seq::<Constraint>::empty()) =~= Seq::<ConstraintView>::empty());
        let ghost old_entries = parser.query_data.constraints@;
        let ghost key = (IdentView::Field(wv), Seq::<ConstraintView>::empty());
        match find_entry(&parser.query_data.constraints, &w) {
            Some(j) => {
                parser.query_data.constraints[j] = (Identifier::Field(w.clone()), Vec::new());
                assert(entries_view(parser.query_data.constraints@) =~= entries_view(
                    old_entries,
                ).update(j as int, key));
            },
            None => {
                parser.query_data.constraints.push((Identifier::Field(w.clone()), Vec::new()));
                assert(entries_view(parser.query_data.constraints@) =~= entries_view(
                    old_entries,
                ).push(key));
            },
        }
        parser.query_data.curr_constraint = Identifier::Field(w);
        assert(parser.query_data.view().constraints =~= open_entry(d, wv).constraints);
        Ok(Step::DefineConstraint)
}

/// A constraint keyword for the current field.
fn define_constraint(parser: &mut Parser) -> (r: Result<Step, ParseError>)
    requires
        old(parser).wf(),
    ensures
        final(parser).wf(),
        final(parser).query == old(parser).query,
        final(parser).step == old(parser).step,
        r is Ok ==> old(parser).location < final(parser).location,
        r is Err ==> final(parser).query_data.view() == old(parser).query_data.view(),
        outcome_matches(
            r,
            final(parser),
            table_step(
                old(parser).query@,
                Step::DefineConstraint,
                old(parser).location as int,
                old(parser).query_data.view(),
            ),
        ),
{
    let ghost d = parser.query_data.view();
    let loc = parser.location;
        let t = parser.next_token();
        let ct = match constraint_of_token(&t) {
            Some(ct) => ct,
            None => return Err(ParseError { kind: ErrorKind::ExpectedConstraint, offset: loc, expected: None }),
        };
        let j = match current_entry_index(parser) {
            Some(j) => j,
            None => return Err(ParseError { kind: ErrorKind::ExpectedConstraint, offset: loc, expected: None }),
        };
        let next = parser.after_constraint(true);
        if next.is_err() {
            return next;
        }
        let ghost old_entries = parser.query_data.constraints@;
        parser.query_data.constraints[j].1.push(Constraint { constraint_type: ct, options: Vec::new() });
        assert(exprs_view(Seq::<Expression>::empty()) =~= Seq::<ExprView>::empty());
        assert(constraints_view(parser.query_data.constraints@[j as int].1@) =~= constraints_view(
            old_entries[j as int].1@,
        ).push(ConstraintView { constraint_type: ct, options: Seq::empty() }));
        assert(entries_view(parser.query_data.constraints@) =~= entries_view(old_entries).update(
            j as int,
            (
                entries_view(old_entries)[j as int].0,
                constraints_view(old_entries[j as int].1@).push(
                    ConstraintView { constraint_type: ct, options: Seq::empty() },
                ),
            ),
        ));
        next
}

/// A token of the options of the current constraint.
fn define_constraint_option(parser: &mut Parser) -> (r: Result<Step, ParseError>)
    requires
        old(parser).wf(),
    ensures
        final(parser).wf(),
        final(parser).query == old(parser).query,
        final(parser).step == old(parser).step,
        r is Ok ==> old(parser).location < final(parser).location,
        r is Err ==> final(parser).query_data.view() == old(parser).query_data.view(),
        outcome_matches(
            r,
            final(parser),
            table_step(
                old(parser).query@,
                Step::DefineConstraintOption,
                old(parser).location as int,
                old(parser).query_data.view(),
            ),
        ),
{
    let ghost d = parser.query_data.view();
    let loc = parser.location;
        let t = parser.next_token();
        let text = token_text(&t);
        if text.as_str().unicode_len() == 0 {
            return Err(parser.empty_token_error(loc));
        }
        match t {
            Token::Keyword(Keyword::CloseParen) => return parser.after_constraint(false),
            Token::Keyword(Keyword::Comma) => return Ok(Step::DefineConstraintOption),
            _ => {},
        }
        let j = match current_entry_index(parser) {
            Some(j) => j,
            None => return Err(ParseError { kind: ErrorKind::ExpectedConstraint, offset: loc, expected: None }),
        };
        let k = parser.query_data.constraints[j].1.len();
        if k == 0 {
            return Err(ParseError { kind: ErrorKind::ExpectedConstraint, offset: loc, expected: None });
        }
        let ghost old_entries = parser.query_data.constraints@;
        let mut opts: Vec<Expression> = Vec::new();
        std::mem::swap(&mut opts, &mut parser.query_data.constraints[j].1[k - 1].options);
        assert(opts@ == old_entries[j as int].1@[k - 1].options@);
        let folded = match fold_option_expr(opts, &text) {
            Ok(o) => o,
            Err((kind, back)) => {
                parser.query_data.constraints[j].1[k - 1].options = back;
                assert(parser.query_data.constraints@[j as int].1@[k - 1].view()
                    == old_entries[j as int].1@[k - 1].view());
                assert(constraints_view(parser.query_data.constraints@[j as int].1@)
                    =~= constraints_view(old_entries[j as int].1@));
                assert(entries_view(parser.query_data.constraints@) =~= entries_view(old_entries));
                return Err(ParseError { kind, offset: loc, expected: None });
            },
        };
        let ghost fv = exprs_view(folded@);
        parser.query_data.constraints[j].1[k - 1].options = folded;
        assert(constraints_view(parser.query_data.constraints@[j as int].1@) =~= constraints_view(
            old_entries[j as int].1@,
        ).update(
            k - 1,
            ConstraintView { options: fv, ..constraints_view(old_entries[j as int].1@)[k - 1] },
        ));
        assert(parser.query_data.view().constraints =~= add_constraint_option(
            d,
            text@,
        )->Ok_0.constraints);
        Ok(Step::DefineConstraintOption)
}

/// Runs one state of the table-creation grammar.
pub fn table_creation(parser: &mut Parser, step: Step) -> (r: Result<Step, ParseError>)
    requires
        old(parser).wf(),
    ensures
        final(parser).wf(),
        final(parser).query == old(parser).query,
        final(parser).step == old(parser).step,
        r is Ok ==> old(parser).location < final(parser).location,
        r is Err ==> final(parser).query_data.view() == old(parser).query_data.view(),
        outcome_matches(
            r,
            final(parser),
            table_step(
                old(parser).query@,
                step,
                old(parser).location as int,
                old(parser).query_data.view(),
            ),
        ),
{
    let ghost d = parser.query_data.view();
    let loc = parser.location;
    match step {
        Step::DefineTableName => {
            let w = match parser.pop_name() {
                Ok(w) => w,
                Err(e) => return Err(e),
            };
            if let Err(e) = parser.expect(Keyword::On) {
                return Err(e);
            }
            parser.query_data.table_name = Identifier::StringLiteral(w);
            Ok(Step::DefineTableDatabase)
        },
        Step::DefineTableDatabase => {
            let w = match parser.pop_name() {
                Ok(w) => w,
                Err(e) => return Err(e),
            };
            if let Err(e) = parser.expect(Keyword::Structured) {
                return Err(e);
            }
            if let Err(e) = parser.expect(Keyword::OpenParen) {
                return Err(e);
            }
            parser.query_data.db_name = Identifier::StringLiteral(w);
            Ok(Step::DefineFieldDatatype)
        },
        Step::DefineFieldDatatype => define_field_datatype(parser),
        Step::DefineFieldDatatypeOption => define_field_datatype_option(parser),
        Step::DefineFieldIdentifier => define_field_identifier(parser),
        Step::DefineTableStructureCloseParen => {
            let t = parser.next_token();
            match t {
                Token::Keyword(Keyword::Semicolon) => Ok(Step::End),
                Token::Keyword(Keyword::Mode) => Ok(Step::DefineTableMode),
                Token::Keyword(Keyword::Constrained) => match parser.expect(Keyword::OpenParen) {
                    Ok(()) => Ok(Step::DefineConstraintOn),
                    Err(e) => Err(e),
                },
                _ => Err(ParseError { kind: ErrorKind::UnexpectedToken, offset: loc, expected: None }),
            }
        },
        Step::DefineTableMode => define_table_mode(parser),
        Step::DefineConstraintOn => match parser.expect(Keyword::On) {
            Ok(()) => Ok(Step::DefineConstraintIdentifier),
            Err(e) => Err(e),
        },
        Step::DefineConstraintIdentifier => define_constraint_identifier(parser),
        Step::DefineConstraint => define_constraint(parser),
        Step::DefineConstraintOption => define_constraint_option(parser),
        Step::DefineConstraintCloseParen => {
            let t = parser.next_token();
            match t {
                Token::Keyword(Keyword::Mode) => Ok(Step::DefineTableMode),
                Token::Keyword(Keyword::Semicolon) => Ok(Step::End),
                _ => Err(ParseError { kind: ErrorKind::UnexpectedToken, offset: loc, expected: None }),
            }
        },
        _ => Err(ParseError { kind: ErrorKind::UnexpectedToken, offset: loc, expected: None }),
    }
}

} // verus!
