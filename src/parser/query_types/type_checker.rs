use vstd::prelude::*;

use crate::parser::constants::keyword_named;
use crate::parser::constants::keyword_of_string;
use crate::parser::constants::Keyword;
use crate::parser::error::ErrorKind;
use crate::parser::lexer::is_space;
use crate::parser::query::binop_of;
use crate::parser::query::unop_of;
use crate::parser::query::BinaryOperation;
use crate::parser::query::IdentView;
use crate::parser::query::Identifier;
use crate::parser::query::UnaryOperation;

verus! {

/// Relies on String::push: the character is appended at the end.
pub assume_specification[ String::push ](s: &mut String, ch: char)
    ensures
        final(s)@ == old(s)@.push(ch),
;

pub open spec fn is_digit(c: char) -> bool {
    '0' <= c && c <= '9'
}

/// Every character is an ASCII digit (so the empty token is one too).
pub open spec fn is_int_literal(t: Seq<char>) -> bool {
    forall|i: int| 0 <= i < t.len() ==> is_digit(#[trigger] t[i])
}

/// The token starts and ends with a single quote.
pub open spec fn is_string_literal(t: Seq<char>) -> bool {
    t.len() >= 1 && t[0] == '\'' && t.last() == '\''
}

/// The token starts with `[` and ends with `]`.
pub open spec fn is_array_literal(t: Seq<char>) -> bool {
    t.len() >= 1 && t[0] == '[' && t.last() == ']'
}

/// The token names a unary operator.
pub open spec fn is_unop(t: Seq<char>) -> bool {
    keyword_named(t) matches Some(k) && unop_of(k) is Some
}

/// The token names a comparison or arithmetic operator (not a connector).
pub open spec fn is_binop(t: Seq<char>) -> bool {
    keyword_named(t) matches Some(k) && binop_of(k) is Some && k != Keyword::And && k
        != Keyword::Or
}

/// The token names an operator: unary, binary or a connector.
pub open spec fn is_operator(t: Seq<char>) -> bool {
    keyword_named(t) matches Some(k) && (unop_of(k) is Some || binop_of(k) is Some)
}

/// The decimal value of a string of digits.
pub open spec fn digits_value(t: Seq<char>) -> int
    decreases t.len(),
{
    if t.len() == 0 {
        0
    } else {
        digits_value(t.drop_last()) * 10 + (t.last() as int - '0' as int)
    }
}

/// The state of the array splitter: the finished elements, the element
/// being read, and whether a quoted string is open.
pub struct SplitState {
    pub done: Seq<Seq<char>>,
    pub curr: Seq<char>,
    pub quoted: bool,
}

/// The splitter reads character `c`, which follows `prev`.
pub open spec fn split_step(st: SplitState, prev: char, c: char) -> SplitState {
    if c == '\'' && prev != '\\' {
        if !st.quoted {
            SplitState { curr: st.curr.push(c), quoted: true, ..st }
        } else {
            SplitState { done: st.done.push(st.curr.push(c)), curr: Seq::empty(), quoted: false }
        }
    } else if !st.quoted && c != ',' && !is_space(c) {
        SplitState { curr: st.curr.push(c), ..st }
    } else if !st.quoted && c == ',' && st.curr.len() > 0 {
        SplitState { done: st.done.push(st.curr), curr: Seq::empty(), ..st }
    } else if st.quoted {
        SplitState { curr: st.curr.push(c), ..st }
    } else {
        st
    }
}

/// The splitter's state once it has read the characters from 1 up to `i`
/// (exclusive) of `t`.
pub open spec fn split_upto(t: Seq<char>, i: int) -> SplitState
    decreases i,
{
    if i <= 1 {
        SplitState { done: Seq::empty(), curr: Seq::empty(), quoted: false }
    } else {
        split_step(split_upto(t, i - 1), t[i - 2], t[i - 1])
    }
}

/// The elements of an array token: its inner characters split at commas
/// outside quotes, spaces outside quotes dropped, quotes kept.
pub open spec fn split_elements(t: Seq<char>) -> Seq<Seq<char>> {
    if t.len() < 2 {
        Seq::empty()
    } else {
        let st = split_upto(t, t.len() - 1);
        if st.curr.len() > 0 {
            st.done.push(st.curr)
        } else {
            st.done
        }
    }
}

/// What a token denotes: an integer, a quoted string, an array of
/// identifiers, or a field name.
pub open spec fn classify(t: Seq<char>) -> Result<IdentView, ErrorKind>
    decreases t.len(), 1int, 0int,
{
    if t.len() == 0 {
        Err(ErrorKind::MissingIdentifier)
    } else if is_int_literal(t) {
        if digits_value(t) <= i32::MAX {
            Ok(IdentView::Int(digits_value(t) as i32))
        } else {
            Err(ErrorKind::NotAnInteger)
        }
    } else if is_string_literal(t) {
        Ok(IdentView::Str(t))
    } else if is_array_literal(t) {
        match classify_all(split_elements(t), t.len()) {
            Ok(items) => Ok(IdentView::Array(items)),
            Err(e) => Err(e),
        }
    } else if !is_operator(t) {
        Ok(IdentView::Field(t))
    } else {
        Err(ErrorKind::NotAnIdentifier)
    }
}

/// The identifiers of a list of tokens each shorter than `n`; the first
/// failure in list order wins.
pub open spec fn classify_all(ts: Seq<Seq<char>>, n: nat) -> Result<Seq<IdentView>, ErrorKind>
    decreases n, 0int, ts.len(),
{
    if ts.len() == 0 {
        Ok(Seq::empty())
    } else {
        match classify_all(ts.drop_last(), n) {
            Ok(items) => if ts.last().len() < n {
                match classify(ts.last()) {
                    Ok(x) => Ok(items.push(x)),
                    Err(e) => Err(e),
                }
            } else {
                Err(ErrorKind::NotAnIdentifier)
            },
            Err(e) => Err(e),
        }
    }
}

proof fn lemma_split_upto_short(t: Seq<char>, i: int)
    requires
        1 <= i <= t.len(),
    ensures
        split_upto(t, i).curr.len() <= i - 1,
        forall|j: int|
            0 <= j < split_upto(t, i).done.len() ==> (#[trigger] split_upto(t, i).done[j]).len()
                <= i - 1,
    decreases i,
{
    if i > 1 {
        lemma_split_upto_short(t, i - 1);
    }
}

/// Each element of an array token is shorter than the token.
pub proof fn lemma_split_elements_short(t: Seq<char>)
    ensures
        forall|j: int|
            0 <= j < split_elements(t).len() ==> (#[trigger] split_elements(t)[j]).len() + 2
                <= t.len(),
{
    if t.len() >= 2 {
        lemma_split_upto_short(t, t.len() - 1);
    }
}

proof fn lemma_classify_all_err(ts: Seq<Seq<char>>, n: nat, i: int)
    requires
        0 <= i <= ts.len(),
        classify_all(ts.take(i), n) is Err,
    ensures
        classify_all(ts, n) == classify_all(ts.take(i), n),
    decreases ts.len() - i,
{
    if i < ts.len() {
        assert(ts.take(i + 1).drop_last() =~= ts.take(i));
        lemma_classify_all_err(ts, n, i + 1);
    } else {
        assert(ts.take(i) =~= ts);
    }
}

/// Whether every character of the token is an ASCII digit.
pub fn check_int_literal(token: &String) -> (r: bool)
    ensures
        r == is_int_literal(token@),
{
    let n = token.as_str().unicode_len();
    let mut i: usize = 0;
    while i < n
        invariant
            n == token@.len(),
            i <= n,
            forall|j: int| 0 <= j < i ==> is_digit(#[trigger] token@[j]),
        decreases n - i,
    {
        let c = token.as_str().get_char(i);
        if !('0' <= c && c <= '9') {
            return false;
        }
        i += 1;
    }
    true
}

/// Whether the token starts and ends with a single quote.
pub fn check_string_literal(token: &String) -> (r: bool)
    ensures
        r == is_string_literal(token@),
{
    let n = token.as_str().unicode_len();
    n >= 1 && token.as_str().get_char(0) == '\'' && token.as_str().get_char(n - 1) == '\''
}

/// Whether the token names an operator.
pub fn check_operator(token: &String) -> (r: bool)
    ensures
        r == is_operator(token@),
{
    match keyword_of_string(token) {
        Some(k) => unop_of_keyword(k).is_some() || binop_of_keyword(k).is_some(),
        None => false,
    }
}

/// Whether the token names a comparison or arithmetic operator.
pub fn check_binop(token: &String) -> (r: bool)
    ensures
        r == is_binop(token@),
{
    match keyword_of_string(token) {
        Some(k) => binop_of_keyword(k).is_some() && k != Keyword::And && k != Keyword::Or,
        None => false,
    }
}

/// Whether the token names a unary operator.
pub fn check_unop(token: &String) -> (r: bool)
    ensures
        r == is_unop(token@),
{
    match keyword_of_string(token) {
        Some(k) => unop_of_keyword(k).is_some(),
        None => false,
    }
}

/// Whether the token can stand for a value: a literal or a non-operator.
pub fn check_identifier(token: &String) -> (r: bool)
    ensures
        r == (is_int_literal(token@) || is_string_literal(token@) || !is_operator(token@)),
{
    check_int_literal(token) || check_string_literal(token) || !check_operator(token)
}

/// Whether the token can stand for a field name: no literal and no operator.
pub fn check_field(token: &String) -> (r: bool)
    ensures
        r == !(is_int_literal(token@) || is_string_literal(token@) || is_operator(token@)),
{
    !(check_int_literal(token) || check_string_literal(token) || check_operator(token))
}

/// Whether the token starts with `[` and ends with `]`.
pub fn check_array(token: &String) -> (r: bool)
    ensures
        r == is_array_literal(token@),
{
    let n = token.as_str().unicode_len();
    n >= 1 && token.as_str().get_char(0) == '[' && token.as_str().get_char(n - 1) == ']'
}

/// The unary operation a keyword names.
pub fn unop_of_keyword(k: Keyword) -> (r: Option<UnaryOperation>)
    ensures
        r == unop_of(k),
{
    match k {
        Keyword::Abs => Some(UnaryOperation::Abs),
        Keyword::Neg => Some(UnaryOperation::Negative),
        Keyword::Not => Some(UnaryOperation::LogicalNot),
        Keyword::BitwiseNot => Some(UnaryOperation::BitwiseNot),
        Keyword::Exists => Some(UnaryOperation::Exists),
        _ => None,
    }
}

/// The binary operation a keyword names, connectors included.
pub fn binop_of_keyword(k: Keyword) -> (r: Option<BinaryOperation>)
    ensures
        r == binop_of(k),
{
    match k {
        Keyword::Add => Some(BinaryOperation::Addition),
        Keyword::Sub => Some(BinaryOperation::Subtraction),
        Keyword::Mul => Some(BinaryOperation::Multiplication),
        Keyword::Div => Some(BinaryOperation::Division),
        Keyword::Equals => Some(BinaryOperation::Equals),
        Keyword::NotEquals => Some(BinaryOperation::NotEquals),
        Keyword::GreaterEq => Some(BinaryOperation::GreaterThanEqualTo),
        Keyword::LesserEq => Some(BinaryOperation::LesserThanEqualTo),
        Keyword::Greater => Some(BinaryOperation::GreaterThan),
        Keyword::Lesser => Some(BinaryOperation::LesserThan),
        Keyword::And => Some(BinaryOperation::And),
        Keyword::Or => Some(BinaryOperation::Or),
        _ => None,
    }
}


/// Splits an array token such as `['a', 'bc']` into its element tokens
/// (`'a'` and `'bc'`): commas outside quotes separate elements, spaces
/// outside quotes are dropped, quoted strings keep their quotes.
pub fn split_array(token: &String) -> (r: Vec<String>)
    ensures
        r@.map_values(|x: String| x@) == split_elements(token@),
{
    let n = token.as_str().unicode_len();
    let mut res: Vec<String> = Vec::new();
    if n < 2 {
        assert(res@.map_values(|x: String| x@) =~= split_elements(token@));
        return res;
    }
    let mut curr = String::new();
    let mut quotes = false;
    let mut i: usize = 1;
    while i < n - 1
        invariant
            n == token@.len(),
            n >= 2,
            1 <= i <= n - 1,
            res@.map_values(|x: String| x@) == split_upto(token@, i as int).done,
            curr@ == split_upto(token@, i as int).curr,
            quotes == split_upto(token@, i as int).quoted,
        decreases n - 1 - i,
    {
        let c = token.as_str().get_char(i);
        let prev = token.as_str().get_char(i - 1);
        let ghost before = res@;
        if c == '\'' && prev != '\\' {
            if !quotes {
                quotes = true;
                curr.push(c);
            } else {
                quotes = false;
                curr.push(c);
                res.push(curr);
                curr = String::new();
                assert(res@.map_values(|x: String| x@) =~= before.map_values(|x: String| x@).push(
                    split_upto(token@, i as int).curr.push(c),
                ));
            }
        } else if !quotes && c != ',' && !(c == ' ' || c == '\t' || c == '\n' || c == '\r') {
            curr.push(c);
        } else if !quotes && c == ',' && curr.as_str().unicode_len() > 0 {
            res.push(curr);
            curr = String::new();
            assert(res@.map_values(|x: String| x@) =~= before.map_values(|x: String| x@).push(
                split_upto(token@, i as int).curr,
            ));
        } else if quotes {
            curr.push(c);
        }
        i += 1;
    }
    if curr.as_str().unicode_len() > 0 {
        let ghost before = res@;
        res.push(curr);
        assert(res@.map_values(|x: String| x@) =~= before.map_values(|x: String| x@).push(
            split_upto(token@, (n - 1) as int).curr,
        ));
    }
    res
}

/// The value of a string of digits, if it fits in an `i32`.
pub(crate) fn parse_digits(token: &String) -> (r: Option<i32>)
    requires
        is_int_literal(token@),
    ensures
        r == (if digits_value(token@) <= i32::MAX {
            Some(digits_value(token@) as i32)
        } else {
            None
        }),
{
    let n = token.as_str().unicode_len();
    let mut acc: i64 = 0;
    let mut i: usize = 0;
    while i < n
        invariant
            n == token@.len(),
            i <= n,
            is_int_literal(token@),
            acc == digits_value(token@.take(i as int)),
            0 <= acc <= i32::MAX,
        decreases n - i,
    {
        let c = token.as_str().get_char(i);
        assert(is_digit(token@[i as int]));
        let d = (c as u32 - '0' as u32) as i64;
        assert(token@.take(i as int + 1).drop_last() =~= token@.take(i as int));
        acc = acc * 10 + d;
        i += 1;
        if acc > i32::MAX as i64 {
            proof {
                lemma_digits_value_grows(token@, i as int);
            }
            return None;
        }
    }
    assert(token@.take(n as int) =~= token@);
    Some(acc as i32)
}

proof fn lemma_digits_value_nonneg(t: Seq<char>)
    requires
        is_int_literal(t),
    ensures
        digits_value(t) >= 0,
    decreases t.len(),
{
    if t.len() > 0 {
        assert(is_digit(t[t.len() - 1]));
        assert(t.drop_last().len() == t.len() - 1);
        assert forall|j: int| 0 <= j < t.drop_last().len() implies is_digit(
            #[trigger] t.drop_last()[j],
        ) by {
            assert(is_digit(t[j]));
        }
        lemma_digits_value_nonneg(t.drop_last());
    }
}

/// A string of digits is worth at least as much as any of its prefixes.
proof fn lemma_digits_value_grows(t: Seq<char>, i: int)
    requires
        is_int_literal(t),
        0 <= i <= t.len(),
    ensures
        digits_value(t) >= digits_value(t.take(i)),
    decreases t.len() - i,
{
    if i < t.len() {
        let u = t.take(i + 1);
        assert(u.drop_last() =~= t.take(i));
        assert(is_digit(t[i]));
        assert forall|j: int| 0 <= j < t.take(i).len() implies is_digit(#[trigger] t.take(i)[j]) by {
            assert(is_digit(t[j]));
        }
        lemma_digits_value_nonneg(t.take(i));
        lemma_digits_value_grows(t, i + 1);
    } else {
        assert(t.take(i) =~= t);
    }
}

/// What a token denotes: `IntLiteral` for digits, `StringLiteral` for a
/// quoted string (quotes kept), `Array` for a bracketed list (each element
/// classified in turn), `Field` for any other token that is not an operator.
pub fn as_identifier(token: &String) -> (r: Result<Identifier, ErrorKind>)
    ensures
        match classify(token@) {
            Ok(v) => r is Ok && r->Ok_0.view() == v,
            Err(e) => r == Err::<Identifier, ErrorKind>(e),
        },
    decreases token@.len(),
{
    if token.as_str().unicode_len() == 0 {
        return Err(ErrorKind::MissingIdentifier);
    }
    if check_int_literal(token) {
        match parse_digits(token) {
            Some(v) => Ok(Identifier::IntLiteral(v)),
            None => Err(ErrorKind::NotAnInteger),
        }
    } else if check_string_literal(token) {
        Ok(Identifier::StringLiteral(token.clone()))
    } else if check_array(token) {
        let parts = split_array(token);
        proof {
            lemma_split_elements_short(token@);
        }
        let ghost elems = split_elements(token@);
        let ghost n = token@.len();
        let mut items: Vec<Identifier> = Vec::new();
        let mut i: usize = 0;
        assert(elems.take(0) =~= Seq::<Seq<char>>::empty());
        assert(items@.map_values(|x: Identifier| x.view()) =~= Seq::<IdentView>::empty());
        while i < parts.len()
            invariant
                parts@.map_values(|x: String| x@) == elems,
                items@.len() == i,
                token@.len() > 0,
                !is_int_literal(token@),
                !is_string_literal(token@),
                is_array_literal(token@),
                elems == split_elements(token@),
                n == token@.len(),
                i <= parts.len(),
                forall|j: int| 0 <= j < elems.len() ==> (#[trigger] elems[j]).len() + 2 <= n,
                classify_all(elems.take(i as int), n) == Ok::<Seq<IdentView>, ErrorKind>(
                    items@.map_values(|x: Identifier| x.view()),
                ),
            decreases parts.len() - i,
        {
            assert(parts@[i as int]@ == elems[i as int]);
            let item = as_identifier(&parts[i]);
            assert(elems.take(i as int + 1).drop_last() =~= elems.take(i as int));
            assert(elems.take(i as int + 1).last() == elems[i as int]);
            match item {
                Ok(x) => {
                    let ghost before = items@;
                    items.push(x);
                    assert(items@.map_values(|x: Identifier| x.view()) =~= before.map_values(
                        |x: Identifier| x.view(),
                    ).push(items@[i as int].view()));
                },
                Err(e) => {
                    assert(classify_all(elems.take(i as int + 1), n) == Err::<Seq<IdentView>, ErrorKind>(e));
                    proof {
                        lemma_classify_all_err(elems, n, i as int + 1);
                    }
                    return Err(e);
                },
            }
            i += 1;
        }
        assert(elems.take(i as int) =~= elems);
        let r = Identifier::Array(items);
        assert(r.view()->Array_0 =~= items@.map_values(|x: Identifier| x.view()));
        Ok(r)
    } else if !check_operator(token) {
        Ok(Identifier::Field(token.clone()))
    } else {
        Err(ErrorKind::NotAnIdentifier)
    }
}

} // verus!
