use vstd::prelude::*;

use super::constants::keyword_table;
use super::constants::Keyword;
use super::lexer::char_matches;
use super::lexer::is_space;
use super::lexer::is_word_char;
use super::lexer::keyword_at;
use super::lexer::keyword_from;
use super::lexer::lemma_keyword_from_spelled;
use super::lexer::scan;
use super::lexer::scan_word;
use super::lexer::space_end;
use super::lexer::word_end;
use super::parse_statement;
use super::parsed;
use super::Parser;
use super::error::ParseError;
use super::query::empty_query_view;
use super::query::IdentView;
use super::query::QueryType;
use super::query::QueryView;
use super::run;
use super::grammar_step;
use super::step::Step;
use super::lexer::value_len;
use super::lexer::TokenView;
use super::query_types::is_kw_at;
use super::query_types::table_creation::is_datatype;
use super::query_types::table_creation::has_letter;
use super::query_types::table_creation::table_step;
use super::query_types::table_creation::entry_from;
use super::query_types::table_creation::open_entry;
use super::query_types::table_creation::add_constraint;
use super::query_types::table_creation::add_constraint_option;
use super::query_types::table_creation::current_entry;
use super::query_types::inserting::insert_step;
use super::query_types::reading::read_step;
use super::query::ConstraintView;
use super::query_types::table_creation::add_field;
use super::query_types::table_creation::name_field;
use super::query_types::table_creation::add_field_option;
use super::query_types::type_checker::digits_value;
use super::query_types::type_checker::is_digit;
use super::query_types::type_checker::is_int_literal;
use super::query_types::expect_at;
use super::query_types::name_at;
use super::query_types::pop_at;

verus! {

/// A keyword whose first character does not match the character at `loc`
/// is not spelled there.
proof fn lemma_not_spelled(q: Seq<char>, loc: int, k: Keyword)
    requires
        0 <= loc < q.len(),
        k.spec_text().len() > 0,
        !char_matches(q[loc], k.spec_text()[0]),
    ensures
        !keyword_at(q, loc, k),
{
    assert(!char_matches(q[loc + 0], k.spec_text()[0]));
}

/// Skipping table entries that are not spelled at `loc`.
proof fn lemma_keyword_from_skip(q: Seq<char>, loc: int, i: int, j: int)
    requires
        0 <= i <= j <= keyword_table().len(),
        forall|m: int| i <= m < j ==> !keyword_at(q, loc, #[trigger] keyword_table()[m]),
    ensures
        keyword_from(q, loc, i) == keyword_from(q, loc, j),
    decreases j - i,
{
    if i < j {
        lemma_keyword_from_skip(q, loc, i + 1, j);
    }
}

/// No symbol of the table (its first ten entries) is spelled where a name
/// character or `;` stands, but `;` itself.
proof fn lemma_symbols_not_spelled(q: Seq<char>, loc: int)
    requires
        0 <= loc < q.len(),
        is_word_char(q[loc]) || q[loc] == ';',
    ensures
        forall|m: int| 0 <= m < 9 ==> !keyword_at(q, loc, #[trigger] keyword_table()[m]),
        is_word_char(q[loc]) ==> !keyword_at(q, loc, keyword_table()[9]),
{
    assert forall|m: int| 0 <= m < 9 implies !keyword_at(q, loc, #[trigger] keyword_table()[m]) by {
        lemma_not_spelled(q, loc, keyword_table()[m]);
    }
    if is_word_char(q[loc]) {
        lemma_not_spelled(q, loc, keyword_table()[9]);
    }
}

/// A run of name characters ended by a non-name character or the end.
proof fn lemma_word_end_run(q: Seq<char>, i: int, e: int)
    requires
        0 <= i <= e <= q.len(),
        forall|m: int| i <= m < e ==> is_word_char(#[trigger] q[m]),
        e == q.len() || !is_word_char(q[e]),
    ensures
        word_end(q, i) == e,
    decreases e - i,
{
    if i < e {
        lemma_word_end_run(q, i + 1, e);
    }
}

/// The text `kw name;`.
pub open spec fn database_text(kw: Seq<char>, name: Seq<char>) -> Seq<char> {
    kw + seq![' '] + name + seq![';']
}

/// `kw` spells `DATABASE` in any mix of upper and lower case.
pub open spec fn spells_database(kw: Seq<char>) -> bool {
    kw.len() == 8 && forall|j: int|
        0 <= j < 8 ==> #[trigger] kw[j] == seq!['D', 'A', 'T', 'A', 'B', 'A', 'S', 'E'][j] || kw[j]
            == seq!['d', 'a', 't', 'a', 'b', 'a', 's', 'e'][j]
}

/// A valid name: one or more name characters.
pub open spec fn is_name(name: Seq<char>) -> bool {
    name.len() > 0 && forall|i: int| 0 <= i < name.len() ==> is_word_char(#[trigger] name[i])
}

/// `DATABASE name;`, with the keyword in any case, parses, for every valid
/// name, into a database creation whose database name is `name` as a string
/// literal, with every other part of the query empty, and the whole text
/// consumed.
#[verifier::rlimit(40)]
pub proof fn law_database_statement(kw: Seq<char>, name: Seq<char>)
    requires
        spells_database(kw),
        is_name(name),
    ensures
        parse_statement(database_text(kw, name)) == Ok::<(int, QueryView), super::error::ParseError>(
            (
                database_text(kw, name).len() as int,
                QueryView {
                    kind: QueryType::DatabaseCreation,
                    db_name: IdentView::Str(name),
                    ..empty_query_view()
                },
            ),
        ),
{
    let q = database_text(kw, name);
    let n = name.len() as int;
    let semi = 9 + n;
    assert(q.len() == 10 + n);
    assert(forall|m: int| 0 <= m < 8 ==> q[m] == kw[m]);
    assert(q[8] == ' ');
    assert(kw[0] == 'D' || kw[0] == 'd');
    assert(is_word_char(q[0]));
    assert forall|j: int| 0 <= j < 8 implies char_matches(
        q[0 + j],
        #[trigger] Keyword::Database.spec_text()[j],
    ) by {
        assert(q[j] == kw[j]);
    }
    assert(forall|m: int| 9 <= m < semi ==> q[m] == name[m - 9]);
    assert(q[semi] == ';');
    // the statement keyword
    assert(space_end(q, 0) == 0);
    lemma_symbols_not_spelled(q, 0);
    lemma_keyword_from_skip(q, 0, 0, 10);
    assert(keyword_table()[10] == Keyword::Database);
    assert(keyword_at(q, 0, Keyword::Database));
    assert(keyword_from(q, 0, 10) == Some(Keyword::Database));
    assert(scan(q, 0).1 == 8);
    assert(is_space(q[8]) && !is_space(q[9]));
    assert(space_end(q, 9) == 9);
    assert(space_end(q, 8) == 9);
    assert(pop_at(q, 0).1 == 9);
    // the name
    assert forall|m: int| 9 <= m < semi implies is_word_char(#[trigger] q[m]) by {
        assert(is_word_char(name[m - 9]));
    }
    lemma_word_end_run(q, 9, semi);
    assert(scan_word(q, 9) =~= name);
    assert(!is_space(q[semi]));
    assert(space_end(q, semi) == semi);
    assert(name_at(q, 9) == Ok::<(Seq<char>, int), super::error::ParseError>((name, semi)));
    // the semicolon
    lemma_symbols_not_spelled(q, semi);
    lemma_keyword_from_skip(q, semi, 0, 9);
    assert(keyword_table()[9] == Keyword::Semicolon);
    assert(keyword_at(q, semi, Keyword::Semicolon));
    assert(keyword_from(q, semi, 9) == Some(Keyword::Semicolon));
    assert(space_end(q, semi + 1) == semi + 1);
    assert(expect_at(q, semi, Keyword::Semicolon) == Ok::<int, super::error::ParseError>(semi + 1));
}

/// Parsing leaves nothing of what a parser held before: two parsers that
/// parse the same statement text, whatever state each started from (one
/// fresh or reset, the other used before), end with the same result, the
/// same cursor, the same state and the same query.
pub proof fn law_parse_ignores_earlier_state(
    a_before: Parser,
    a_after: Parser,
    ra: Result<(), ParseError>,
    b_before: Parser,
    b_after: Parser,
    rb: Result<(), ParseError>,
)
    requires
        parsed(&a_before, &a_after, ra),
        parsed(&b_before, &b_after, rb),
        a_before.query@ == b_before.query@,
    ensures
        ra == rb,
        ra is Ok ==> a_after.location == b_after.location && a_after.step == b_after.step
            && a_after.query_data.view() == b_after.query_data.view(),
{
}

/// No keyword is spelled at `p` when the four characters there are
/// `c0 c1 c2 c3` (upper-case letters of a datatype name or `(`).
proof fn lemma_no_keyword_at(q: Seq<char>, p: int)
    requires
        0 <= p,
        p + 4 <= q.len(),
        (q[p] == 'S' && q[p + 1] == 'T' && q[p + 2] == 'R' && q[p + 3] == 'I') || (q[p] == 'O'
            && q[p + 1] == 'P' && q[p + 2] == 'T' && q[p + 3] == 'I') || (q[p] == 'C' && q[p + 1]
            == 'H' && q[p + 2] == 'A' && q[p + 3] == 'R') || (q[p] == 'B' && q[p + 1] == 'Y' && q[p
            + 2] == 'T' && q[p + 3] == 'E') || (q[p] == 'U' && q[p + 1] == 'I' && q[p + 2] == 'N'
            && q[p + 3] == 'T') || (q[p] == 'I' && q[p + 1] == 'N' && q[p + 2] == 'T' && q[p + 3]
            == '(') || (q[p] == 'F' && q[p + 1] == 'L' && q[p + 2] == 'O' && q[p + 3] == 'A') || (
        q[p] == 'T' && q[p + 1] == 'I' && q[p + 2] == 'M' && q[p + 3] == 'E'),
    ensures
        forall|k: Keyword| !keyword_at(q, p, k),
{
    assert forall|k: Keyword| !keyword_at(q, p, k) by {
        match k {
            Keyword::OpenParen => lemma_first_chars_decide(q, p, k),
            Keyword::CloseParen => lemma_first_chars_decide(q, p, k),
            Keyword::Equals => lemma_first_chars_decide(q, p, k),
            Keyword::NotEquals => lemma_first_chars_decide(q, p, k),
            Keyword::GreaterEq => lemma_first_chars_decide(q, p, k),
            Keyword::LesserEq => lemma_first_chars_decide(q, p, k),
            Keyword::Greater => lemma_first_chars_decide(q, p, k),
            Keyword::Lesser => lemma_first_chars_decide(q, p, k),
            Keyword::Comma => lemma_first_chars_decide(q, p, k),
            Keyword::Semicolon => lemma_first_chars_decide(q, p, k),
            Keyword::Database => lemma_first_chars_decide(q, p, k),
            Keyword::Table => lemma_first_chars_decide(q, p, k),
            Keyword::Insert => lemma_first_chars_decide(q, p, k),
            Keyword::Read => lemma_first_chars_decide(q, p, k),
            Keyword::On => lemma_first_chars_decide(q, p, k),
            Keyword::Structured => lemma_first_chars_decide(q, p, k),
            Keyword::Mode => lemma_first_chars_decide(q, p, k),
            Keyword::Fadd => lemma_first_chars_decide(q, p, k),
            Keyword::Fread => lemma_first_chars_decide(q, p, k),
            Keyword::Fdelete => lemma_first_chars_decide(q, p, k),
            Keyword::Lmem => lemma_first_chars_decide(q, p, k),
            Keyword::Constrained => lemma_first_chars_decide(q, p, k),
            Keyword::Where => lemma_first_chars_decide(q, p, k),
            Keyword::Exists => lemma_first_chars_decide(q, p, k),
            Keyword::Unique => lemma_first_chars_decide(q, p, k),
            Keyword::PKey => lemma_first_chars_decide(q, p, k),
            Keyword::FKey => lemma_first_chars_decide(q, p, k),
            Keyword::Suchthat => lemma_first_chars_decide(q, p, k),
            Keyword::Default => lemma_first_chars_decide(q, p, k),
            Keyword::Inc => lemma_first_chars_decide(q, p, k),
            Keyword::And => lemma_first_chars_decide(q, p, k),
            Keyword::Or => lemma_first_chars_decide(q, p, k),
            Keyword::Not => lemma_first_chars_decide(q, p, k),
            Keyword::Abs => lemma_first_chars_decide(q, p, k),
            Keyword::Neg => lemma_first_chars_decide(q, p, k),
            Keyword::BitwiseNot => lemma_first_chars_decide(q, p, k),
            Keyword::Add => lemma_first_chars_decide(q, p, k),
            Keyword::Sub => lemma_first_chars_decide(q, p, k),
            Keyword::Mul => lemma_first_chars_decide(q, p, k),
            Keyword::Div => lemma_first_chars_decide(q, p, k),
        }
    }
}

/// Whether keyword `k` is spelled at `p` is decided by its first four
/// characters, when the text there spells none of them.
proof fn lemma_first_chars_decide(q: Seq<char>, p: int, k: Keyword)
    requires
        0 <= p,
        p + 4 <= q.len(),
        k.spec_text().len() > 3 ==> !char_matches(q[p + 3], k.spec_text()[3]) || !char_matches(
            q[p + 2],
            k.spec_text()[2],
        ) || !char_matches(q[p + 1], k.spec_text()[1]) || !char_matches(q[p], k.spec_text()[0]),
        k.spec_text().len() == 3 ==> !char_matches(q[p + 2], k.spec_text()[2]) || !char_matches(
            q[p + 1],
            k.spec_text()[1],
        ) || !char_matches(q[p], k.spec_text()[0]),
        k.spec_text().len() == 2 ==> !char_matches(q[p + 1], k.spec_text()[1]) || !char_matches(
            q[p],
            k.spec_text()[0],
        ),
        k.spec_text().len() == 1 ==> !char_matches(q[p], k.spec_text()[0]),
    ensures
        !keyword_at(q, p, k),
{
    let w = k.spec_text();
    if w.len() > 3 {
        assert(char_matches(q[p + 3], w[3]) || !char_matches(q[p + 3], w[3]));
    }
    if w.len() > 2 {
        assert(char_matches(q[p + 2], w[2]) || !char_matches(q[p + 2], w[2]));
    }
    if w.len() > 1 {
        assert(char_matches(q[p + 1], w[1]) || !char_matches(q[p + 1], w[1]));
    }
    assert(char_matches(q[p + 0], w[0]) || !char_matches(q[p + 0], w[0]));
}

/// No keyword is spelled where a datatype name followed by `(` starts.
proof fn lemma_datatype_not_keyword(q: Seq<char>, p: int, t: Seq<char>)
    requires
        is_datatype(t),
        0 <= p,
        p + t.len() + 1 <= q.len(),
        q.subrange(p, p + t.len()) == t,
        q[p + t.len()] == '(',
    ensures
        keyword_from(q, p, 0) is None,
{
    reveal_strlit("STRING");
    reveal_strlit("OPTIONS");
    reveal_strlit("CHAR");
    reveal_strlit("BYTES");
    reveal_strlit("UINT");
    reveal_strlit("INT");
    reveal_strlit("FLOAT");
    reveal_strlit("TIMESTAMP");
    assert(t.len() >= 3);
    assert(q[p] == t[0] && q[p + 1] == t[1] && q[p + 2] == t[2]);
    if t.len() > 3 {
        assert(q[p + 3] == t[3]);
    }
    lemma_no_keyword_at(q, p);
    assert forall|m: int| 0 <= m < 40 implies !keyword_at(q, p, #[trigger] keyword_table()[m]) by {}
    lemma_keyword_from_skip(q, p, 0, 40);
}


/// The punctuation `(`, `)`, `,` and `;` scans as its one-character keyword.
proof fn lemma_punct_scan(q: Seq<char>, loc: int)
    requires
        0 <= loc < q.len(),
        q[loc] == '(' || q[loc] == ')' || q[loc] == ',' || q[loc] == ';',
    ensures
        q[loc] == '(' ==> scan(q, loc) == (TokenView::Keyword(Keyword::OpenParen), 1int),
        q[loc] == ')' ==> scan(q, loc) == (TokenView::Keyword(Keyword::CloseParen), 1int),
        q[loc] == ',' ==> scan(q, loc) == (TokenView::Keyword(Keyword::Comma), 1int),
        q[loc] == ';' ==> scan(q, loc) == (TokenView::Keyword(Keyword::Semicolon), 1int),
{
    let t = keyword_table();
    let mut m: int = 0;
    let target: int = if q[loc] == '(' {
        0
    } else if q[loc] == ')' {
        1
    } else if q[loc] == ',' {
        8
    } else {
        9
    };
    assert forall|i: int| 0 <= i < target implies !keyword_at(q, loc, #[trigger] t[i]) by {
        lemma_not_spelled(q, loc, t[i]);
    }
    lemma_keyword_from_skip(q, loc, 0, target);
    assert(keyword_at(q, loc, t[target]));
}

/// The names of a datatype are upper-case letters, three or more.
proof fn lemma_datatype_chars(t: Seq<char>)
    requires
        is_datatype(t),
    ensures
        t.len() >= 3,
        forall|i: int| 0 <= i < t.len() ==> 'A' <= #[trigger] t[i] && t[i] <= 'Z',
{
    reveal_strlit("STRING");
    reveal_strlit("OPTIONS");
    reveal_strlit("CHAR");
    reveal_strlit("BYTES");
    reveal_strlit("UINT");
    reveal_strlit("INT");
    reveal_strlit("FLOAT");
    reveal_strlit("TIMESTAMP");
}

/// No keyword starts with a digit.
proof fn lemma_digit_not_keyword(q: Seq<char>, loc: int)
    requires
        0 <= loc < q.len(),
        is_digit(q[loc]),
    ensures
        keyword_from(q, loc, 0) is None,
{
    assert forall|k: Keyword| !keyword_at(q, loc, k) by {
        match k {
            Keyword::OpenParen => lemma_not_spelled(q, loc, k),
            Keyword::CloseParen => lemma_not_spelled(q, loc, k),
            Keyword::Equals => lemma_not_spelled(q, loc, k),
            Keyword::NotEquals => lemma_not_spelled(q, loc, k),
            Keyword::GreaterEq => lemma_not_spelled(q, loc, k),
            Keyword::LesserEq => lemma_not_spelled(q, loc, k),
            Keyword::Greater => lemma_not_spelled(q, loc, k),
            Keyword::Lesser => lemma_not_spelled(q, loc, k),
            Keyword::Comma => lemma_not_spelled(q, loc, k),
            Keyword::Semicolon => lemma_not_spelled(q, loc, k),
            Keyword::Database => lemma_not_spelled(q, loc, k),
            Keyword::Table => lemma_not_spelled(q, loc, k),
            Keyword::Insert => lemma_not_spelled(q, loc, k),
            Keyword::Read => lemma_not_spelled(q, loc, k),
            Keyword::On => lemma_not_spelled(q, loc, k),
            Keyword::Structured => lemma_not_spelled(q, loc, k),
            Keyword::Mode => lemma_not_spelled(q, loc, k),
            Keyword::Fadd => lemma_not_spelled(q, loc, k),
            Keyword::Fread => lemma_not_spelled(q, loc, k),
            Keyword::Fdelete => lemma_not_spelled(q, loc, k),
            Keyword::Lmem => lemma_not_spelled(q, loc, k),
            Keyword::Constrained => lemma_not_spelled(q, loc, k),
            Keyword::Where => lemma_not_spelled(q, loc, k),
            Keyword::Exists => lemma_not_spelled(q, loc, k),
            Keyword::Unique => lemma_not_spelled(q, loc, k),
            Keyword::PKey => lemma_not_spelled(q, loc, k),
            Keyword::FKey => lemma_not_spelled(q, loc, k),
            Keyword::Suchthat => lemma_not_spelled(q, loc, k),
            Keyword::Default => lemma_not_spelled(q, loc, k),
            Keyword::Inc => lemma_not_spelled(q, loc, k),
            Keyword::And => lemma_not_spelled(q, loc, k),
            Keyword::Or => lemma_not_spelled(q, loc, k),
            Keyword::Not => lemma_not_spelled(q, loc, k),
            Keyword::Abs => lemma_not_spelled(q, loc, k),
            Keyword::Neg => lemma_not_spelled(q, loc, k),
            Keyword::BitwiseNot => lemma_not_spelled(q, loc, k),
            Keyword::Add => lemma_not_spelled(q, loc, k),
            Keyword::Sub => lemma_not_spelled(q, loc, k),
            Keyword::Mul => lemma_not_spelled(q, loc, k),
            Keyword::Div => lemma_not_spelled(q, loc, k),
        }
    }
    assert forall|m: int| 0 <= m < 40 implies !keyword_at(q, loc, #[trigger] keyword_table()[m]) by {}
    lemma_keyword_from_skip(q, loc, 0, 40);
}

/// No keyword of two or more characters holds `,` or `)`.
proof fn lemma_keyword_without_separators(k: Keyword)
    ensures
        k.spec_text().len() >= 2 ==> forall|j: int|
            0 <= j < k.spec_text().len() ==> #[trigger] k.spec_text()[j] != ',' && k.spec_text()[j]
                != ')',
{
    match k {
        Keyword::OpenParen => {},
        Keyword::CloseParen => {},
        Keyword::Equals => {},
        Keyword::NotEquals => {},
        Keyword::GreaterEq => {},
        Keyword::LesserEq => {},
        Keyword::Greater => {},
        Keyword::Lesser => {},
        Keyword::Comma => {},
        Keyword::Semicolon => {},
        Keyword::Database => {},
        Keyword::Table => {},
        Keyword::Insert => {},
        Keyword::Read => {},
        Keyword::On => {},
        Keyword::Structured => {},
        Keyword::Mode => {},
        Keyword::Fadd => {},
        Keyword::Fread => {},
        Keyword::Fdelete => {},
        Keyword::Lmem => {},
        Keyword::Constrained => {},
        Keyword::Where => {},
        Keyword::Exists => {},
        Keyword::Unique => {},
        Keyword::PKey => {},
        Keyword::FKey => {},
        Keyword::Suchthat => {},
        Keyword::Default => {},
        Keyword::Inc => {},
        Keyword::And => {},
        Keyword::Or => {},
        Keyword::Not => {},
        Keyword::Abs => {},
        Keyword::Neg => {},
        Keyword::BitwiseNot => {},
        Keyword::Add => {},
        Keyword::Sub => {},
        Keyword::Mul => {},
        Keyword::Div => {},
    }
}

/// Table entries from `i` on that `keyword_from` passes over are not spelled.
proof fn lemma_keyword_from_none(q: Seq<char>, loc: int, i: int)
    requires
        0 <= i,
        keyword_from(q, loc, i) is None,
    ensures
        forall|m: int| i <= m < keyword_table().len() ==> !keyword_at(q, loc, #[trigger] keyword_table()[m]),
    decreases keyword_table().len() - i,
{
    if i < keyword_table().len() {
        lemma_keyword_from_none(q, loc, i + 1);
    }
}

/// A name that begins with no keyword, followed by `,` or `)`, begins with
/// no keyword where it stands in a longer text either.
proof fn lemma_word_not_keyword(q: Seq<char>, po: int, o: Seq<char>)
    requires
        is_name(o),
        keyword_from(o, 0, 0) is None,
        0 <= po,
        po + o.len() < q.len(),
        forall|i: int| 0 <= i < o.len() ==> q[po + i] == #[trigger] o[i],
        q[po + o.len()] == ',' || q[po + o.len()] == ')',
    ensures
        keyword_from(q, po, 0) is None,
{
    lemma_keyword_from_none(o, 0, 0);
    assert forall|m: int| 0 <= m < 40 implies !keyword_at(q, po, #[trigger] keyword_table()[m]) by {
        let k = keyword_table()[m];
        let w = k.spec_text();
        assert(!keyword_at(o, 0, k));
        if keyword_at(q, po, k) {
            if w.len() <= o.len() {
                assert forall|j: int| 0 <= j < w.len() implies char_matches(
                    o[0 + j],
                    #[trigger] w[j],
                ) by {
                    assert(q[po + j] == o[j]);
                }
                assert(keyword_at(o, 0, k));
            } else {
                lemma_keyword_without_separators(k);
                assert(char_matches(q[po + o.len()], w[o.len() as int]));
                if w.len() < 2 {
                    assert(o.len() == 0);
                }
            }
        }
    }
    lemma_keyword_from_skip(q, po, 0, 40);
}

/// An option of datatype `t`: for `OPTIONS` a name that does not begin with
/// a keyword, for every other datatype a decimal number that fits in 32 bits.
pub open spec fn is_option(t: Seq<char>, o: Seq<char>) -> bool {
    if t == "OPTIONS"@ {
        is_name(o) && keyword_from(o, 0, 0) is None
    } else {
        is_number(o)
    }
}

/// A datatype option written as a decimal number that fits in 32 bits.
pub open spec fn is_number(o: Seq<char>) -> bool {
    o.len() > 0 && is_int_literal(o) && digits_value(o) <= i32::MAX
}

/// Options separated by `, `.
pub open spec fn options_text(os: Seq<Seq<char>>) -> Seq<char>
    decreases os.len(),
{
    if os.len() == 0 {
        Seq::empty()
    } else if os.len() == 1 {
        os[0]
    } else {
        os[0] + seq![',', ' '] + options_text(os.drop_first())
    }
}

/// A column `T(o1, ..., ok) f`: a datatype name, its options, a field name.
pub open spec fn column_text(c: (Seq<char>, Seq<Seq<char>>, Seq<char>)) -> Seq<char> {
    c.0 + seq!['('] + options_text(c.1) + seq![')', ' '] + c.2
}

/// Columns separated by `, ` and closed by `);`.
pub open spec fn columns_text(cs: Seq<(Seq<char>, Seq<Seq<char>>, Seq<char>)>) -> Seq<char>
    decreases cs.len(),
{
    if cs.len() == 0 {
        seq![')', ';']
    } else if cs.len() == 1 {
        column_text(cs[0]) + seq![')', ';']
    } else {
        column_text(cs[0]) + seq![',', ' '] + columns_text(cs.drop_first())
    }
}

/// A valid column: a datatype name, options of that datatype, and a name
/// with a letter in it.
pub open spec fn is_column(c: (Seq<char>, Seq<Seq<char>>, Seq<char>)) -> bool {
    &&& is_datatype(c.0)
    &&& forall|i: int| 0 <= i < c.1.len() ==> is_option(c.0, #[trigger] c.1[i])
    &&& is_name(c.2)
    &&& has_letter(c.2)
}

/// What option `o` of datatype `t` stands for: text for `OPTIONS`, an
/// integer otherwise.
pub open spec fn option_value(t: Seq<char>, o: Seq<char>) -> IdentView {
    if t == "OPTIONS"@ {
        IdentView::Str(o)
    } else {
        IdentView::Int(digits_value(o) as i32)
    }
}

/// The options of a column of datatype `t`.
pub open spec fn option_values(t: Seq<char>, os: Seq<Seq<char>>) -> Seq<IdentView> {
    os.map_values(|o: Seq<char>| option_value(t, o))
}

/// The field entries that the columns declare.
pub open spec fn column_entries(cs: Seq<(Seq<char>, Seq<Seq<char>>, Seq<char>)>) -> Seq<
    (IdentView, Seq<IdentView>, IdentView),
> {
    cs.map_values(
        |c: (Seq<char>, Seq<Seq<char>>, Seq<char>)|
            (IdentView::Dtype(c.0), option_values(c.0, c.1), IdentView::Field(c.2)),
    )
}

/// Where the first option and the options after it stand.
proof fn lemma_options_layout(q: Seq<char>, po: int, os: Seq<Seq<char>>)
    requires
        os.len() >= 1,
        0 <= po,
        po + options_text(os).len() <= q.len(),
        forall|i: int| 0 <= i < options_text(os).len() ==> q[po + i] == #[trigger] options_text(os)[i],
    ensures
        forall|i: int| 0 <= i < os[0].len() ==> q[po + i] == #[trigger] os[0][i],
        os.len() == 1 ==> options_text(os).len() == os[0].len(),
        os.len() > 1 ==> {
            &&& options_text(os).len() == os[0].len() + 2 + options_text(os.drop_first()).len()
            &&& q[po + os[0].len()] == ','
            &&& q[po + os[0].len() + 1] == ' '
            &&& forall|i: int|
                0 <= i < options_text(os.drop_first()).len() ==> q[po + os[0].len() + 2 + i]
                    == #[trigger] options_text(os.drop_first())[i]
        },
{
    let ot = options_text(os);
    let o = os[0];
    if os.len() > 1 {
        let rest = options_text(os.drop_first());
        assert(ot == o + seq![',', ' '] + rest);
        assert forall|i: int| 0 <= i < o.len() implies q[po + i] == #[trigger] o[i] by {
            assert(ot[i] == o[i]);
        }
        assert(q[po + o.len()] == ot[o.len() as int]);
        assert(q[po + o.len() + 1] == ot[o.len() as int + 1]);
        assert forall|i: int| 0 <= i < rest.len() implies q[po + o.len() + 2 + i]
            == #[trigger] rest[i] by {
            assert(q[po + (o.len() + 2 + i)] == ot[o.len() as int + 2 + i]);
        }
    } else {
        assert(ot == o);
        assert forall|i: int| 0 <= i < o.len() implies q[po + i] == #[trigger] o[i] by {
            assert(ot[i] == o[i]);
        }
    }
}

/// Where the parts of the first column stand when the columns start at `p`,
/// and where the columns after it start.
proof fn lemma_column_layout(q: Seq<char>, p: int, cs: Seq<(Seq<char>, Seq<Seq<char>>, Seq<char>)>)
    requires
        cs.len() >= 1,
        0 <= p <= q.len(),
        q.subrange(p, q.len() as int) == columns_text(cs),
    ensures
        ({
            let t = cs[0].0;
            let ot = options_text(cs[0].1);
            let f = cs[0].2;
            let po = p + t.len() + 1;
            let pc = po + ot.len();
            let pos3 = pc + 2;
            let pos4 = pos3 + f.len();
            &&& pos4 + 2 <= q.len()
            &&& forall|i: int| 0 <= i < t.len() ==> q[p + i] == #[trigger] t[i]
            &&& q[po - 1] == '('
            &&& forall|i: int| 0 <= i < ot.len() ==> q[po + i] == #[trigger] ot[i]
            &&& q[pc] == ')' && q[pc + 1] == ' '
            &&& forall|i: int| 0 <= i < f.len() ==> q[pos3 + i] == #[trigger] f[i]
            &&& cs.len() == 1 ==> q[pos4] == ')' && q[pos4 + 1] == ';' && q.len() == pos4 + 2
            &&& cs.len() > 1 ==> q[pos4] == ',' && q[pos4 + 1] == ' ' && q.subrange(
                pos4 + 2,
                q.len() as int,
            ) == columns_text(cs.drop_first())
        }),
{
    let c = cs[0];
    let t = c.0;
    let ot = options_text(c.1);
    let f = c.2;
    let ct = column_text(c);
    let all = columns_text(cs);
    let tail = if cs.len() == 1 {
        seq![')', ';']
    } else {
        seq![',', ' '] + columns_text(cs.drop_first())
    };
    assert(all == ct + tail);
    let po = p + t.len() + 1;
    let pc = po + ot.len();
    let pos3 = pc + 2;
    let pos4 = pos3 + f.len();
    let lt = t.len() as int;
    let lo = ot.len() as int;
    assert(ct.len() == lt + 1 + lo + 2 + f.len());
    assert forall|i: int| 0 <= i < q.len() - p implies q[p + i] == #[trigger] all[i] by {
        assert(q.subrange(p, q.len() as int)[i] == q[p + i]);
    }
    assert forall|i: int| 0 <= i < t.len() implies q[p + i] == #[trigger] t[i] by {
        assert(all[i] == ct[i]);
    }
    assert(q[p + lt] == all[lt]);
    assert forall|i: int| 0 <= i < ot.len() implies q[po + i] == #[trigger] ot[i] by {
        assert(q[p + (lt + 1 + i)] == all[lt + 1 + i]);
        assert(all[lt + 1 + i] == ct[lt + 1 + i]);
    }
    assert(q[pc] == all[lt + 1 + lo]);
    assert(q[pc + 1] == all[lt + 1 + lo + 1]);
    assert forall|i: int| 0 <= i < f.len() implies q[pos3 + i] == #[trigger] f[i] by {
        assert(q[p + (lt + 1 + lo + 2 + i)] == all[lt + 1 + lo + 2 + i]);
        assert(all[lt + 1 + lo + 2 + i] == ct[lt + 1 + lo + 2 + i]);
    }
    assert(q[pos4] == all[ct.len() as int]);
    assert(q[pos4 + 1] == all[ct.len() as int + 1]);
    if cs.len() > 1 {
        let rest = columns_text(cs.drop_first());
        assert forall|i: int| 0 <= i < rest.len() implies q.subrange(
            pos4 + 2,
            q.len() as int,
        )[i] == #[trigger] rest[i] by {
            assert(q[p + (ct.len() + 2 + i)] == all[ct.len() as int + 2 + i]);
        }
        assert(q.subrange(pos4 + 2, q.len() as int) =~= rest);
    }
}

/// The datatype step at `p`: the field is added, then `(` is read, and the
/// options follow, or `)` and the field name.
#[verifier::rlimit(60)]
proof fn lemma_datatype_step(q: Seq<char>, p: int, t: Seq<char>, no_options: bool, dv: QueryView)
    requires
        is_datatype(t),
        0 <= p,
        p + t.len() + 4 <= q.len(),
        forall|i: int| 0 <= i < t.len() ==> q[p + i] == #[trigger] t[i],
        q[p + t.len()] == '(',
        no_options ==> q[p + t.len() + 1] == ')' && q[p + t.len() + 2] == ' ' && !is_space(
            q[p + t.len() + 3],
        ),
        !no_options ==> is_word_char(q[p + t.len() + 1]),
    ensures
        table_step(q, Step::DefineFieldDatatype, p, dv) == Ok::<(Step, int, QueryView), ParseError>(
            if no_options {
                (Step::DefineFieldIdentifier, p + t.len() + 3, add_field(dv, t))
            } else {
                (Step::DefineFieldDatatypeOption, p + t.len() + 1, add_field(dv, t))
            },
        ),
{
    lemma_datatype_chars(t);
    let pos1 = p + t.len();
    let pos2 = pos1 + 1;
    assert(q.subrange(p, pos1) =~= t);
    lemma_datatype_not_keyword(q, p, t);
    assert forall|i: int| p <= i < pos1 implies is_word_char(#[trigger] q[i]) by {
        assert(q[p + (i - p)] == t[i - p]);
    }
    lemma_word_end_run(q, p, pos1);
    assert(value_len(q, p) == t.len());
    assert(scan(q, p) == (TokenView::Text(t), t.len() as int));
    assert(space_end(q, pos1) == pos1);
    assert(pop_at(q, p).1 == pos1);
    lemma_punct_scan(q, pos1);
    assert(space_end(q, pos2) == pos2);
    assert(expect_at(q, pos1, Keyword::OpenParen) == Ok::<int, ParseError>(pos2));
    if no_options {
        lemma_punct_scan(q, pos2);
        assert(is_kw_at(q, pos2, Keyword::CloseParen));
        assert(space_end(q, pos2 + 2) == pos2 + 2);
        assert(space_end(q, pos2 + 1) == pos2 + 2);
    } else {
        lemma_keyword_from_spelled(q, pos2, 0);
        lemma_not_spelled(q, pos2, Keyword::CloseParen);
        assert(!is_kw_at(q, pos2, Keyword::CloseParen));
    }
}

/// An option step at `po` for a field of datatype `t`: the option is added
/// to the last field, then `)` leads to the field name, `,` to the next option.
#[verifier::rlimit(60)]
proof fn lemma_option_step(q: Seq<char>, po: int, o: Seq<char>, t: Seq<char>, last: bool, d: QueryView)
    requires
        is_option(t, o),
        0 <= po,
        po + o.len() + 3 <= q.len(),
        forall|i: int| 0 <= i < o.len() ==> q[po + i] == #[trigger] o[i],
        q[po + o.len()] == (if last {
            ')'
        } else {
            ','
        }),
        q[po + o.len() + 1] == ' ',
        !is_space(q[po + o.len() + 2]),
        d.fields.len() > 0,
        d.fields.last().0 == IdentView::Dtype(t),
    ensures
        table_step(q, Step::DefineFieldDatatypeOption, po, d) == Ok::<
            (Step, int, QueryView),
            ParseError,
        >(
            (
                if last {
                    Step::DefineFieldIdentifier
                } else {
                    Step::DefineFieldDatatypeOption
                },
                po + o.len() + 2,
                add_field_option(d, option_value(t, o)),
            ),
        ),
{
    let pe = po + o.len();
    if t == "OPTIONS"@ {
        lemma_word_not_keyword(q, po, o);
        assert forall|i: int| po <= i < pe implies is_word_char(#[trigger] q[i]) by {
            assert(q[po + (i - po)] == o[i - po]);
        }
    } else {
        assert(is_digit(o[0]));
        lemma_digit_not_keyword(q, po);
        assert forall|i: int| po <= i < pe implies is_word_char(#[trigger] q[i]) by {
            assert(q[po + (i - po)] == o[i - po]);
            assert(is_digit(o[i - po]));
        }
    }
    lemma_word_end_run(q, po, pe);
    assert(value_len(q, po) == o.len());
    assert(q.subrange(po, pe) =~= o);
    assert(scan(q, po) == (TokenView::Text(o), o.len() as int));
    assert(space_end(q, pe) == pe);
    assert(pop_at(q, po).1 == pe);
    lemma_punct_scan(q, pe);
    assert(space_end(q, pe + 2) == pe + 2);
    assert(space_end(q, pe + 1) == pe + 2);
}

/// A run of options at `po` appends their values, in order, to the options
/// of the last field and hands over to the field name.
proof fn lemma_options_run(q: Seq<char>, po: int, os: Seq<Seq<char>>, t: Seq<char>, d: QueryView)
    requires
        os.len() >= 1,
        forall|i: int| 0 <= i < os.len() ==> is_option(t, #[trigger] os[i]),
        0 <= po,
        po + options_text(os).len() + 3 <= q.len(),
        forall|i: int| 0 <= i < options_text(os).len() ==> q[po + i] == #[trigger] options_text(os)[i],
        q[po + options_text(os).len()] == ')',
        q[po + options_text(os).len() + 1] == ' ',
        !is_space(q[po + options_text(os).len() + 2]),
        d.fields.len() > 0,
        d.fields.last().0 == IdentView::Dtype(t),
    ensures
        ({
            let f = d.fields.last();
            run(q, Step::DefineFieldDatatypeOption, po, d) == run(
                q,
                Step::DefineFieldIdentifier,
                po + options_text(os).len() + 2,
                QueryView {
                    fields: d.fields.update(
                        d.fields.len() - 1,
                        (f.0, f.1 + option_values(t, os), f.2),
                    ),
                    ..d
                },
            )
        }),
    decreases os.len(),
{
    let o = os[0];
    assert(is_option(t, o));
    lemma_options_layout(q, po, os);
    let f = d.fields.last();
    let d2 = add_field_option(d, option_value(t, o));
    if os.len() == 1 {
        lemma_option_step(q, po, o, t, true, d);
        lemma_run_table_step(
            q,
            Step::DefineFieldDatatypeOption,
            po,
            d,
            Step::DefineFieldIdentifier,
            po + o.len() + 2,
            d2,
        );
        assert(option_values(t, os) =~= seq![option_value(t, o)]);
        assert(f.1.push(option_value(t, o)) =~= f.1 + option_values(t, os));
        assert(d2.fields == d.fields.update(
            d.fields.len() - 1,
            (f.0, f.1 + option_values(t, os), f.2),
        ));
    } else {
        let rest = os.drop_first();
        let next = po + o.len() + 2;
        assert(is_option(t, rest[0]));
        assert(rest[0].len() > 0 && is_word_char(rest[0][0])) by {
            if t != "OPTIONS"@ {
                assert(is_digit(rest[0][0]));
            }
        }
        assert(options_text(rest).len() > 0) by {
            if rest.len() == 1 {
            } else {
                assert(options_text(rest) == rest[0] + seq![',', ' '] + options_text(
                    rest.drop_first(),
                ));
            }
        }
        assert(q[next + 0] == options_text(rest)[0]);
        lemma_options_layout(q, next, rest);
        lemma_option_step(q, po, o, t, false, d);
        lemma_run_table_step(
            q,
            Step::DefineFieldDatatypeOption,
            po,
            d,
            Step::DefineFieldDatatypeOption,
            next,
            d2,
        );
        assert forall|i: int| 0 <= i < rest.len() implies is_option(t, #[trigger] rest[i]) by {
            assert(rest[i] == os[i + 1]);
        }
        assert(d2.fields.last().0 == IdentView::Dtype(t));
        lemma_options_run(q, next, rest, t, d2);
        assert(option_values(t, os) =~= seq![option_value(t, o)] + option_values(t, rest));
        assert(f.1.push(option_value(t, o)) + option_values(t, rest) =~= f.1 + option_values(t, os));
        assert(d2.fields.update(
            d2.fields.len() - 1,
            (d2.fields.last().0, d2.fields.last().1 + option_values(t, rest), d2.fields.last().2),
        ) =~= d.fields.update(d.fields.len() - 1, (f.0, f.1 + option_values(t, os), f.2)));
    }
}

/// The name step at `pos3`: the last field gets its name, then `)` ends the
/// field list and `,` leads to the next column.
#[verifier::rlimit(60)]
proof fn lemma_name_step(q: Seq<char>, pos3: int, f: Seq<char>, last: bool, d: QueryView)
    requires
        is_name(f),
        has_letter(f),
        0 <= pos3,
        pos3 + f.len() + 2 <= q.len(),
        !last ==> pos3 + f.len() + 3 <= q.len(),
        forall|i: int| 0 <= i < f.len() ==> q[pos3 + i] == #[trigger] f[i],
        last ==> q[pos3 + f.len()] == ')' && q[pos3 + f.len() + 1] == ';',
        !last ==> q[pos3 + f.len()] == ',' && q[pos3 + f.len() + 1] == ' ' && !is_space(
            q[pos3 + f.len() + 2],
        ),
        d.fields.len() > 0,
    ensures
        table_step(q, Step::DefineFieldIdentifier, pos3, d) == Ok::<(Step, int, QueryView), ParseError>(
            if last {
                (Step::DefineTableStructureCloseParen, pos3 + f.len() + 1, name_field(d, f))
            } else {
                (Step::DefineFieldDatatype, pos3 + f.len() + 2, name_field(d, f))
            },
        ),
{
    let pos4 = pos3 + f.len();
    assert forall|i: int| pos3 <= i < pos4 implies is_word_char(#[trigger] q[i]) by {
        assert(q[pos3 + (i - pos3)] == f[i - pos3]);
    }
    lemma_word_end_run(q, pos3, pos4);
    assert(scan_word(q, pos3) =~= f);
    assert(space_end(q, pos4) == pos4);
    assert(name_at(q, pos3) == Ok::<(Seq<char>, int), ParseError>((f, pos4)));
    lemma_punct_scan(q, pos4);
    if last {
        assert(space_end(q, pos4 + 1) == pos4 + 1);
    } else {
        assert(space_end(q, pos4 + 2) == pos4 + 2);
        assert(space_end(q, pos4 + 1) == pos4 + 2);
    }
}

/// A table step that succeeds and moves the cursor forward hands over to
/// the run from its outcome.
proof fn lemma_run_table_step(
    q: Seq<char>,
    s: Step,
    loc: int,
    d: QueryView,
    s2: Step,
    l2: int,
    d2: QueryView,
)
    requires
        s != Step::End,
        !s.is_insert_step(),
        !s.is_read_step(),
        table_step(q, s, loc, d) == Ok::<(Step, int, QueryView), ParseError>((s2, l2, d2)),
        loc < l2 <= q.len(),
    ensures
        run(q, s, loc, d) == run(q, s2, l2, d2),
{
    reveal(run);
    assert(grammar_step(q, s, loc, d) == table_step(q, s, loc, d));
}

/// Parsing a list of columns from its first datatype on adds one field entry
/// per column, in order, and reads to the end of the statement.
#[verifier::rlimit(60)]
proof fn lemma_columns_run(
    q: Seq<char>,
    p: int,
    cs: Seq<(Seq<char>, Seq<Seq<char>>, Seq<char>)>,
    dv: QueryView,
)
    requires
        cs.len() >= 1,
        forall|i: int| 0 <= i < cs.len() ==> is_column(#[trigger] cs[i]),
        0 <= p <= q.len(),
        q.subrange(p, q.len() as int) == columns_text(cs),
    ensures
        run(q, Step::DefineFieldDatatype, p, dv) == Ok::<(int, QueryView), ParseError>(
            (q.len() as int, QueryView { fields: dv.fields + column_entries(cs), ..dv }),
        ),
    decreases cs.len(),
{
    let c = cs[0];
    let t = c.0;
    let os = c.1;
    let f = c.2;
    assert(is_column(c));
    lemma_column_layout(q, p, cs);
    lemma_datatype_chars(t);
    let ot = options_text(os);
    let po = p + t.len() + 1;
    let pc = po + ot.len();
    let pos3 = pc + 2;
    let pos4 = pos3 + f.len();
    assert(!is_space(q[pos3])) by {
        assert(q[pos3 + 0] == f[0]);
    }
    let d1 = add_field(dv, t);
    // the datatype and its options
    if os.len() == 0 {
        assert(ot.len() == 0);
        lemma_datatype_step(q, p, t, true, dv);
        lemma_run_table_step(q, Step::DefineFieldDatatype, p, dv, Step::DefineFieldIdentifier, pos3, d1);
    } else {
        assert(is_option(t, os[0]));
        lemma_options_layout(q, po, os);
        assert(q[po + 0] == os[0][0]);
        assert(os[0].len() > 0 && is_word_char(os[0][0])) by {
            if t != "OPTIONS"@ {
                assert(is_digit(os[0][0]));
            }
        }
        lemma_datatype_step(q, p, t, false, dv);
        lemma_run_table_step(
            q,
            Step::DefineFieldDatatype,
            p,
            dv,
            Step::DefineFieldDatatypeOption,
            po,
            d1,
        );
        lemma_options_run(q, po, os, t, d1);
    }
    let fl = d1.fields.last();
    let d2 = QueryView {
        fields: d1.fields.update(d1.fields.len() - 1, (fl.0, fl.1 + option_values(t, os), fl.2)),
        ..d1
    };
    assert(os.len() == 0 ==> d2 == d1) by {
        if os.len() == 0 {
            assert(fl.1 + option_values(t, os) =~= fl.1);
            assert(d2.fields =~= d1.fields);
        }
    }
    assert(run(q, Step::DefineFieldDatatype, p, dv) == run(q, Step::DefineFieldIdentifier, pos3, d2));
    let d3 = name_field(d2, f);
    assert(d3.fields =~= dv.fields.push(
        (IdentView::Dtype(t), option_values(t, os), IdentView::Field(f)),
    ));
    // the field name and what follows
    if cs.len() == 1 {
        lemma_name_step(q, pos3, f, true, d2);
        lemma_run_table_step(
            q,
            Step::DefineFieldIdentifier,
            pos3,
            d2,
            Step::DefineTableStructureCloseParen,
            pos4 + 1,
            d3,
        );
        lemma_punct_scan(q, pos4 + 1);
        assert(space_end(q, pos4 + 2) == pos4 + 2);
        assert(table_step(q, Step::DefineTableStructureCloseParen, pos4 + 1, d3) == Ok::<
            (Step, int, QueryView),
            ParseError,
        >((Step::End, pos4 + 2, d3)));
        lemma_run_table_step(q, Step::DefineTableStructureCloseParen, pos4 + 1, d3, Step::End, pos4 + 2, d3);
        reveal(run);
        assert(column_entries(cs) =~= seq![
            (IdentView::Dtype(t), option_values(t, os), IdentView::Field(f)),
        ]);
        assert(d3.fields =~= dv.fields + column_entries(cs));
    } else {
        let rest = cs.drop_first();
        assert(is_column(rest[0]));
        lemma_datatype_chars(rest[0].0);
        assert(columns_text(rest)[0] == rest[0].0[0]) by {
            if rest.len() == 1 {
                assert(columns_text(rest) == column_text(rest[0]) + seq![')', ';']);
            } else {
                assert(columns_text(rest) == column_text(rest[0]) + seq![',', ' '] + columns_text(
                    rest.drop_first(),
                ));
            }
        }
        assert(q[pos4 + 2] == q.subrange(pos4 + 2, q.len() as int)[0]);
        lemma_name_step(q, pos3, f, false, d2);
        lemma_run_table_step(
            q,
            Step::DefineFieldIdentifier,
            pos3,
            d2,
            Step::DefineFieldDatatype,
            pos4 + 2,
            d3,
        );
        assert forall|i: int| 0 <= i < rest.len() implies is_column(#[trigger] rest[i]) by {
            assert(rest[i] == cs[i + 1]);
        }
        lemma_columns_run(q, pos4 + 2, rest, d3);
        assert(column_entries(cs) =~= seq![
            (IdentView::Dtype(t), option_values(t, os), IdentView::Field(f)),
        ] + column_entries(rest));
        assert(d3.fields + column_entries(rest) =~= dv.fields + column_entries(cs));
    }
}

/// The text `TABLE t ON d STRUCTURED (` followed by the columns and `);`.
pub open spec fn table_text(t: Seq<char>, d: Seq<char>, cs: Seq<(Seq<char>, Seq<Seq<char>>, Seq<char>)>) -> Seq<
    char,
> {
    seq!['T', 'A', 'B', 'L', 'E', ' '] + t + seq![' ', 'O', 'N', ' '] + d + seq![
        ' ',
        'S',
        'T',
        'R',
        'U',
        'C',
        'T',
        'U',
        'R',
        'E',
        'D',
        ' ',
        '(',
    ] + columns_text(cs)
}

/// Where the parts of `table_text(t, d, cs)` stand.
proof fn lemma_table_layout(t: Seq<char>, d: Seq<char>, cs: Seq<(Seq<char>, Seq<Seq<char>>, Seq<char>)>)
    ensures
        ({
            let q = table_text(t, d, cs);
            let a = 6 + t.len() as int;
            let b = a + 4;
            let e = b + d.len() as int;
            &&& q.len() == e + 13 + columns_text(cs).len()
            &&& q[0] == 'T' && q[1] == 'A' && q[2] == 'B' && q[3] == 'L' && q[4] == 'E' && q[5]
                == ' '
            &&& forall|i: int| 0 <= i < t.len() ==> q[6 + i] == #[trigger] t[i]
            &&& q[a] == ' ' && q[a + 1] == 'O' && q[a + 2] == 'N' && q[a + 3] == ' '
            &&& forall|i: int| 0 <= i < d.len() ==> q[b + i] == #[trigger] d[i]
            &&& q[e] == ' ' && q[e + 1] == 'S' && q[e + 2] == 'T' && q[e + 3] == 'R' && q[e + 4]
                == 'U' && q[e + 5] == 'C' && q[e + 6] == 'T' && q[e + 7] == 'U' && q[e + 8] == 'R'
                && q[e + 9] == 'E' && q[e + 10] == 'D' && q[e + 11] == ' ' && q[e + 12] == '('
            &&& q.subrange(e + 13, q.len() as int) == columns_text(cs)
        }),
{
    let q = table_text(t, d, cs);
    let a = 6 + t.len() as int;
    let b = a + 4;
    let e = b + d.len() as int;
    assert(q.subrange(e + 13, q.len() as int) =~= columns_text(cs));
}

/// The statement keyword `TABLE` hands over to the table grammar.
#[verifier::rlimit(100)]
proof fn lemma_table_keyword(t: Seq<char>, d: Seq<char>, cs: Seq<(Seq<char>, Seq<Seq<char>>, Seq<char>)>)
    requires
        is_name(t),
    ensures
        parse_statement(table_text(t, d, cs)) == run(
            table_text(t, d, cs),
            Step::DefineTableName,
            6,
            QueryView { kind: QueryType::TableCreation, ..empty_query_view() },
        ),
{
    let q = table_text(t, d, cs);
    lemma_table_layout(t, d, cs);
    assert(q[6] == t[0]);
    assert(space_end(q, 0) == 0);
    lemma_symbols_not_spelled(q, 0);
    lemma_not_spelled(q, 0, keyword_table()[10]);
    lemma_keyword_from_skip(q, 0, 0, 11);
    assert(keyword_at(q, 0, Keyword::Table));
    assert(keyword_from(q, 0, 11) == Some(Keyword::Table));
    assert(space_end(q, 6) == 6);
    assert(space_end(q, 5) == 6);
    assert(pop_at(q, 0) == (TokenView::Keyword(Keyword::Table), 6int));
}

/// The table name and `ON`.
#[verifier::rlimit(40)]
proof fn lemma_table_name(t: Seq<char>, d: Seq<char>, cs: Seq<(Seq<char>, Seq<Seq<char>>, Seq<char>)>)
    requires
        is_name(t),
        is_name(d),
    ensures
        ({
            let q = table_text(t, d, cs);
            let d0 = QueryView { kind: QueryType::TableCreation, ..empty_query_view() };
            run(q, Step::DefineTableName, 6, d0) == run(
                q,
                Step::DefineTableDatabase,
                10 + t.len() as int,
                QueryView { table_name: IdentView::Str(t), ..d0 },
            )
        }),
{
    let q = table_text(t, d, cs);
    lemma_table_layout(t, d, cs);
    let a = 6 + t.len() as int;
    let b = a + 4;
    assert(q[b] == d[0]);
    assert forall|i: int| 6 <= i < a implies is_word_char(#[trigger] q[i]) by {
        assert(q[6 + (i - 6)] == t[i - 6]);
    }
    lemma_word_end_run(q, 6, a);
    assert(scan_word(q, 6) =~= t);
    assert(space_end(q, a + 1) == a + 1);
    assert(space_end(q, a) == a + 1);
    assert(name_at(q, 6) == Ok::<(Seq<char>, int), ParseError>((t, a + 1)));
    lemma_symbols_not_spelled(q, a + 1);
    lemma_not_spelled(q, a + 1, keyword_table()[10]);
    lemma_not_spelled(q, a + 1, keyword_table()[11]);
    lemma_not_spelled(q, a + 1, keyword_table()[12]);
    lemma_not_spelled(q, a + 1, keyword_table()[13]);
    lemma_keyword_from_skip(q, a + 1, 0, 14);
    assert(keyword_at(q, a + 1, Keyword::On));
    assert(keyword_from(q, a + 1, 14) == Some(Keyword::On));
    assert(space_end(q, b) == b);
    assert(space_end(q, a + 3) == b);
    assert(expect_at(q, a + 1, Keyword::On) == Ok::<int, ParseError>(b));
    let d0 = QueryView { kind: QueryType::TableCreation, ..empty_query_view() };
    let d1 = QueryView { table_name: IdentView::Str(t), ..d0 };
    lemma_run_table_step(q, Step::DefineTableName, 6, d0, Step::DefineTableDatabase, b, d1);
}

/// The database name, `STRUCTURED` and `(`.
#[verifier::rlimit(80)]
proof fn lemma_table_database(t: Seq<char>, d: Seq<char>, cs: Seq<(Seq<char>, Seq<Seq<char>>, Seq<char>)>, d1: QueryView)
    requires
        is_name(d),
        cs.len() >= 1,
        is_column(cs[0]),
    ensures
        ({
            let q = table_text(t, d, cs);
            let b = 10 + t.len() as int;
            run(q, Step::DefineTableDatabase, b, d1) == run(
                q,
                Step::DefineFieldDatatype,
                b + d.len() as int + 13,
                QueryView { db_name: IdentView::Str(d), ..d1 },
            )
        }),
{
    let q = table_text(t, d, cs);
    lemma_table_layout(t, d, cs);
    let b = 10 + t.len() as int;
    let e = b + d.len() as int;
    let c0 = e + 13;
    assert forall|i: int| b <= i < e implies is_word_char(#[trigger] q[i]) by {
        assert(q[b + (i - b)] == d[i - b]);
    }
    lemma_word_end_run(q, b, e);
    assert(scan_word(q, b) =~= d);
    assert(space_end(q, e + 1) == e + 1);
    assert(space_end(q, e) == e + 1);
    assert(name_at(q, b) == Ok::<(Seq<char>, int), ParseError>((d, e + 1)));
    lemma_symbols_not_spelled(q, e + 1);
    lemma_not_spelled(q, e + 1, keyword_table()[10]);
    lemma_not_spelled(q, e + 1, keyword_table()[11]);
    lemma_not_spelled(q, e + 1, keyword_table()[12]);
    lemma_not_spelled(q, e + 1, keyword_table()[13]);
    lemma_not_spelled(q, e + 1, keyword_table()[14]);
    lemma_keyword_from_skip(q, e + 1, 0, 15);
    assert(keyword_at(q, e + 1, Keyword::Structured));
    assert(keyword_from(q, e + 1, 15) == Some(Keyword::Structured));
    assert(space_end(q, e + 12) == e + 12);
    assert(space_end(q, e + 11) == e + 12);
    assert(expect_at(q, e + 1, Keyword::Structured) == Ok::<int, ParseError>(e + 12));
    lemma_punct_scan(q, e + 12);
    lemma_column_layout(q, c0, cs);
    lemma_datatype_chars(cs[0].0);
    assert(q[c0] == cs[0].0[0]);
    assert(space_end(q, c0) == c0);
    assert(expect_at(q, e + 12, Keyword::OpenParen) == Ok::<int, ParseError>(c0));
    let d2 = QueryView { db_name: IdentView::Str(d), ..d1 };
    lemma_run_table_step(q, Step::DefineTableDatabase, b, d1, Step::DefineFieldDatatype, c0, d2);
}

/// `TABLE t ON d STRUCTURED (T1(o, ...) f1, ..., Tn(o, ...) fn);` parses,
/// for valid table and database names and every non-empty list of columns,
/// into a table creation with one field entry `(Datatype(Ti), options,
/// Field(fi))` per column, in declaration order, the rest of the query empty
/// and the whole text read.  Each column has a datatype, zero or more
/// options and a field name with a letter in it; an option of `OPTIONS` is a
/// name that does not begin with a keyword and stands for its text, an
/// option of any other datatype is a decimal number that fits in 32 bits and
/// stands for its value.
pub proof fn law_table_columns(t: Seq<char>, d: Seq<char>, cs: Seq<(Seq<char>, Seq<Seq<char>>, Seq<char>)>)
    requires
        is_name(t),
        is_name(d),
        cs.len() >= 1,
        forall|i: int| 0 <= i < cs.len() ==> is_column(#[trigger] cs[i]),
    ensures
        parse_statement(table_text(t, d, cs)) == Ok::<(int, QueryView), ParseError>(
            (
                table_text(t, d, cs).len() as int,
                QueryView {
                    kind: QueryType::TableCreation,
                    table_name: IdentView::Str(t),
                    db_name: IdentView::Str(d),
                    fields: column_entries(cs),
                    ..empty_query_view()
                },
            ),
        ),
{
    let q = table_text(t, d, cs);
    let d0 = QueryView { kind: QueryType::TableCreation, ..empty_query_view() };
    let d1 = QueryView { table_name: IdentView::Str(t), ..d0 };
    let d2 = QueryView { db_name: IdentView::Str(d), ..d1 };
    let c0 = 10 + t.len() as int + d.len() as int + 13;
    lemma_table_layout(t, d, cs);
    lemma_table_keyword(t, d, cs);
    lemma_table_name(t, d, cs);
    assert(is_column(cs[0]));
    lemma_table_database(t, d, cs, d1);
    lemma_columns_run(q, c0, cs, d2);
    assert(d2.fields + column_entries(cs) =~= column_entries(cs));
}

/// The constraint entries name each field at most once.
pub open spec fn keys_unique(cs: Seq<(IdentView, Seq<ConstraintView>)>) -> bool {
    forall|i: int, j: int| 0 <= i < j < cs.len() ==> cs[i].0 != cs[j].0
}

proof fn lemma_entry_from(cs: Seq<(IdentView, Seq<ConstraintView>)>, w: Seq<char>, i: int)
    requires
        0 <= i,
    ensures
        entry_from(cs, w, i) matches Some(j) ==> i <= j < cs.len() && cs[j].0 == IdentView::Field(w),
        entry_from(cs, w, i) is None ==> forall|m: int| i <= m < cs.len() ==> #[trigger] cs[m].0
            != IdentView::Field(w),
    decreases cs.len() - i,
{
    if i < cs.len() {
        lemma_entry_from(cs, w, i + 1);
    }
}

/// An entry's list replaced under the same key keeps the keys unique.
proof fn lemma_update_same_key(
    cs: Seq<(IdentView, Seq<ConstraintView>)>,
    j: int,
    v: Seq<ConstraintView>,
)
    requires
        keys_unique(cs),
        0 <= j < cs.len(),
    ensures
        keys_unique(cs.update(j, (cs[j].0, v))),
{
    let c2 = cs.update(j, (cs[j].0, v));
    assert forall|a: int, b: int| 0 <= a < b < c2.len() implies c2[a].0 != c2[b].0 by {
        assert(c2[a].0 == cs[a].0 && c2[b].0 == cs[b].0);
    }
}

/// `ON w` keeps the keys of the constraint entries unique.
proof fn lemma_open_entry_keys(d: QueryView, w: Seq<char>)
    requires
        keys_unique(d.constraints),
    ensures
        keys_unique(open_entry(d, w).constraints),
{
    lemma_entry_from(d.constraints, w, 0);
    match entry_from(d.constraints, w, 0) {
        Some(j) => lemma_update_same_key(d.constraints, j, Seq::empty()),
        None => {
            let c2 = open_entry(d, w).constraints;
            assert forall|a: int, b: int| 0 <= a < b < c2.len() implies c2[a].0 != c2[b].0 by {
                if b == d.constraints.len() {
                    assert(d.constraints[a].0 != IdentView::Field(w));
                }
            }
        },
    }
}

/// Adding a constraint, or an option of one, keeps the keys unique.
proof fn lemma_current_entry_keys(d: QueryView, ct: super::query::ConstraintType, t: Seq<char>)
    requires
        keys_unique(d.constraints),
    ensures
        add_constraint(d, ct) matches Some(d2) ==> keys_unique(d2.constraints),
        add_constraint_option(d, t) matches Ok(d2) ==> keys_unique(d2.constraints),
{
    if let IdentView::Field(w) = d.curr_constraint {
        lemma_entry_from(d.constraints, w, 0);
    }
    if let Some(j) = current_entry(d) {
        let cs = d.constraints[j].1;
        lemma_update_same_key(
            d.constraints,
            j,
            cs.push(super::query::ConstraintView { constraint_type: ct, options: Seq::empty() }),
        );
        if cs.len() > 0 {
            if let Ok(opts) = super::query_types::table_creation::fold_option(cs.last().options, t) {
                lemma_update_same_key(
                    d.constraints,
                    j,
                    cs.update(cs.len() - 1, ConstraintView { options: opts, ..cs.last() }),
                );
            }
        }
    }
}

/// Every step of the grammar keeps the keys of the constraint entries unique.
#[verifier::rlimit(80)]
proof fn lemma_step_keys(q: Seq<char>, s: Step, loc: int, d: QueryView)
    requires
        keys_unique(d.constraints),
    ensures
        grammar_step(q, s, loc, d) matches Ok((_, _, d2)) ==> keys_unique(d2.constraints),
{
    if s.is_insert_step() {
        assert(insert_step(q, s, loc, d) matches Ok((_, _, d2)) ==> d2.constraints == d.constraints);
    } else if s.is_read_step() {
        assert(read_step(q, s, loc, d) matches Ok((_, _, d2)) ==> d2.constraints == d.constraints);
    } else {
        match s {
            Step::DefineConstraintIdentifier => {
                if let Ok((w, _)) = name_at(q, loc) {
                    lemma_open_entry_keys(d, w);
                }
            },
            Step::DefineConstraint => {
                if let Some(ct) = super::query_types::table_creation::constraint_of(pop_at(q, loc).0) {
                    lemma_current_entry_keys(d, ct, Seq::empty());
                }
            },
            Step::DefineConstraintOption => {
                lemma_current_entry_keys(d, super::query::ConstraintType::Exists, pop_at(q, loc).0.text());
            },
            _ => {},
        }
    }
}

/// Running the grammar keeps the keys of the constraint entries unique.
proof fn lemma_run_keys(q: Seq<char>, s: Step, loc: int, d: QueryView)
    requires
        keys_unique(d.constraints),
    ensures
        run(q, s, loc, d) matches Ok((_, d2)) ==> keys_unique(d2.constraints),
    decreases q.len() - loc,
{
    reveal(run);
    if s != Step::End {
        lemma_step_keys(q, s, loc, d);
        if let Ok((s2, l2, d2)) = grammar_step(q, s, loc, d) {
            if loc < l2 <= q.len() {
                lemma_run_keys(q, s2, l2, d2);
            }
        }
    }
}

/// Whatever statement is parsed, the constraint entries of the query name
/// each field at most once: a field mentioned again in a constraint list
/// gets its entry replaced, never a second one.
pub proof fn law_constraint_keys_unique(q: Seq<char>)
    ensures
        parse_statement(q) matches Ok((_, d)) ==> keys_unique(d.constraints),
{
    let d0 = empty_query_view();
    lemma_run_keys(q, Step::DefineTableName, pop_at(q, space_end(q, 0)).1, QueryView { kind: QueryType::TableCreation, ..d0 });
    let l = pop_at(q, space_end(q, 0)).1;
    if let Ok(l2) = expect_at(q, l, Keyword::Structured) {
        if let Ok(l3) = expect_at(q, l2, Keyword::OpenParen) {
            lemma_run_keys(q, Step::InsertValueIdentifier, l3, QueryView { kind: QueryType::Insert, ..d0 });
            lemma_run_keys(q, Step::ReadFieldIdentifier, l3, QueryView { kind: QueryType::Read, ..d0 });
        }
    }
}

/// The field-name step of a table: a name with no letter in it (such as
/// `123`) is refused at the name; any other name becomes the name of the
/// last declared field, the earlier fields stay as they were, and `)` ends
/// the field list while `,` starts the next field.
pub proof fn law_field_name_step(q: Seq<char>, loc: int, d: QueryView)
    ensures
        match name_at(q, loc) {
            Ok((w, l)) => if !has_letter(w) {
                table_step(q, Step::DefineFieldIdentifier, loc, d) == Err::<
                    (Step, int, QueryView),
                    ParseError,
                >(super::query_types::fail(super::error::ErrorKind::DigitsOnlyFieldName, loc))
            } else {
                d.fields.len() > 0 ==> (table_step(q, Step::DefineFieldIdentifier, loc, d) matches Ok(
                    (s, _, d2),
                ) ==> {
                    &&& d2.fields.len() == d.fields.len()
                    &&& d2.fields.subrange(0, d.fields.len() - 1) == d.fields.subrange(
                        0,
                        d.fields.len() - 1,
                    )
                    &&& d2.fields.last() == (d.fields.last().0, d.fields.last().1, IdentView::Field(w))
                    &&& (s == Step::DefineTableStructureCloseParen) == is_kw_at(
                        q,
                        l,
                        Keyword::CloseParen,
                    )
                    &&& (s == Step::DefineFieldDatatype) == is_kw_at(q, l, Keyword::Comma)
                })
            },
            Err(e) => table_step(q, Step::DefineFieldIdentifier, loc, d) == Err::<
                (Step, int, QueryView),
                ParseError,
            >(e),
        },
{
    if let Ok((w, l)) = name_at(q, loc) {
        if has_letter(w) && d.fields.len() > 0 {
            let d2 = name_field(d, w);
            assert(d2.fields.subrange(0, d.fields.len() - 1) =~= d.fields.subrange(
                0,
                d.fields.len() - 1,
            ));
        }
    }
}

/// The constraint step of a table: a constraint keyword adds one constraint
/// of its kind, with no options, at the end of the current field's list; the
/// other entries and all keys stay as they were.  Any other token is refused
/// with `ExpectedConstraint` at that token.
pub proof fn law_constraint_step(q: Seq<char>, loc: int, d: QueryView)
    ensures
        super::query_types::table_creation::constraint_of(pop_at(q, loc).0) is None
            ==> table_step(q, Step::DefineConstraint, loc, d) == Err::<
            (Step, int, QueryView),
            ParseError,
        >(super::query_types::fail(super::error::ErrorKind::ExpectedConstraint, loc)),
        super::query_types::table_creation::constraint_of(pop_at(q, loc).0) matches Some(ct)
            ==> current_entry(d) matches Some(j) ==> table_step(
            q,
            Step::DefineConstraint,
            loc,
            d,
        ) matches Ok((_, _, d2)) ==> {
            &&& d2.constraints.len() == d.constraints.len()
            &&& forall|i: int|
                0 <= i < d.constraints.len() && i != j ==> #[trigger] d2.constraints[i]
                    == d.constraints[i]
            &&& d2.constraints[j].0 == d.constraints[j].0
            &&& d2.constraints[j].1 == d.constraints[j].1.push(
                ConstraintView { constraint_type: ct, options: Seq::empty() },
            )
        },
{
    if let IdentView::Field(w) = d.curr_constraint {
        lemma_entry_from(d.constraints, w, 0);
    }
    if let Some(ct) = super::query_types::table_creation::constraint_of(pop_at(q, loc).0) {
        if let Some(j) = current_entry(d) {
            let d2 = add_constraint(d, ct)->0;
            assert(super::query_types::table_creation::after_constraint(q, pop_at(q, loc).1, d2, true) matches Ok(
                (_, _, d3),
            ) ==> d3 == d2);
        }
    }
}

} // verus!
