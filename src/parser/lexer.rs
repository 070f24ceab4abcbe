use vstd::prelude::*;

use super::constants::keyword_entry;
use super::constants::keyword_table;
use super::constants::Keyword;
use super::constants::KEYWORD_COUNT;
use super::Parser;

verus! {

/// A token: a keyword, or the text of a literal or a name.
#[derive(Debug)]
pub enum Token {
    Keyword(Keyword),
    Text(String),
}

/// The value of a token.
pub enum TokenView {
    Keyword(Keyword),
    Text(Seq<char>),
}

impl Token {
    pub open spec fn view(&self) -> TokenView {
        match self {
            Token::Keyword(k) => TokenView::Keyword(*k),
            Token::Text(s) => TokenView::Text(s@),
        }
    }
}

impl TokenView {
    /// The spelling of the token; a keyword is spelled in upper case.
    pub open spec fn text(self) -> Seq<char> {
        match self {
            TokenView::Keyword(k) => k.spec_text(),
            TokenView::Text(s) => s,
        }
    }
}

/// Characters skipped between tokens: space, tab, line feed and carriage return.
pub open spec fn is_space(c: char) -> bool {
    c == ' ' || c == '\t' || c == '\n' || c == '\r'
}

/// Characters of a bare name: ASCII letters and digits, `_` and `*`.
pub open spec fn is_word_char(c: char) -> bool {
    ('a' <= c && c <= 'z') || ('A' <= c && c <= 'Z') || ('0' <= c && c <= '9') || c == '_'
        || c == '*'
}

/// A character of the input matches a character of an upper-case keyword,
/// ignoring the case of ASCII letters.
pub open spec fn char_matches(c: char, k: char) -> bool {
    c == k || ('A' <= k && k <= 'Z' && c as u32 == k as u32 + 32)
}

/// Keyword `k` is spelled at position `loc` of `q`.
pub open spec fn keyword_at(q: Seq<char>, loc: int, k: Keyword) -> bool {
    &&& 0 <= loc
    &&& loc + k.spec_text().len() <= q.len()
    &&& forall|j: int|
        0 <= j < k.spec_text().len() ==> char_matches(q[loc + j], #[trigger] k.spec_text()[j])
}

/// The first keyword of the table, from entry `i` on, spelled at `loc`.
pub open spec fn keyword_from(q: Seq<char>, loc: int, i: int) -> Option<Keyword>
    decreases keyword_table().len() - i,
{
    if i < 0 || i >= keyword_table().len() {
        None
    } else if keyword_at(q, loc, keyword_table()[i]) {
        Some(keyword_table()[i])
    } else {
        keyword_from(q, loc, i + 1)
    }
}

/// The first position from `i` on that holds `d` not preceded by a backslash.
pub open spec fn closing_from(q: Seq<char>, i: int, d: char) -> Option<int>
    decreases q.len() - i,
{
    if i <= 0 || i >= q.len() {
        None
    } else if q[i] == d && q[i - 1] != '\\' {
        Some(i)
    } else {
        closing_from(q, i + 1, d)
    }
}

/// The end of the run of name characters that starts at `i`.
pub open spec fn word_end(q: Seq<char>, i: int) -> int
    decreases q.len() - i,
{
    if i < 0 || i >= q.len() || !is_word_char(q[i]) {
        i
    } else {
        word_end(q, i + 1)
    }
}

/// The end of the run of spaces that starts at `i`.
pub open spec fn space_end(q: Seq<char>, i: int) -> int
    decreases q.len() - i,
{
    if i < 0 || i >= q.len() || !is_space(q[i]) {
        i
    } else {
        space_end(q, i + 1)
    }
}

/// The length of the delimited literal that opens at `loc` and closes with
/// `d`; zero when it is not closed.
pub open spec fn delimited_len(q: Seq<char>, loc: int, d: char) -> int {
    match closing_from(q, loc + 1, d) {
        Some(e) => e + 1 - loc,
        None => 0,
    }
}

/// The length of the literal or name at `loc`: an array `[...]`, a quoted
/// string `'...'`, or a run of name characters.
pub open spec fn value_len(q: Seq<char>, loc: int) -> int {
    if loc < 0 || loc >= q.len() {
        0
    } else if q[loc] == '[' {
        delimited_len(q, loc, ']')
    } else if q[loc] == '\'' {
        delimited_len(q, loc, '\'')
    } else {
        word_end(q, loc) - loc
    }
}

/// The token at `loc` and the number of characters it covers.
pub open spec fn scan(q: Seq<char>, loc: int) -> (TokenView, int) {
    if loc < 0 || loc >= q.len() {
        (TokenView::Text(Seq::empty()), 0)
    } else {
        match keyword_from(q, loc, 0) {
            Some(k) => (TokenView::Keyword(k), k.spec_text().len() as int),
            None => (TokenView::Text(q.subrange(loc, loc + value_len(q, loc))), value_len(q, loc)),
        }
    }
}

/// The bare name at `loc`, possibly empty.
pub open spec fn scan_word(q: Seq<char>, loc: int) -> Seq<char> {
    q.subrange(loc, word_end(q, loc))
}

/// The literal or name at `loc`, possibly empty.
pub open spec fn scan_value(q: Seq<char>, loc: int) -> Seq<char> {
    q.subrange(loc, loc + value_len(q, loc))
}

/// Where the cursor stands after `n` characters at `loc` and the spaces that follow.
pub open spec fn advance(q: Seq<char>, loc: int, n: int) -> int {
    space_end(q, loc + n)
}

pub proof fn lemma_word_end_bounds(q: Seq<char>, i: int)
    requires
        0 <= i <= q.len(),
    ensures
        i <= word_end(q, i) <= q.len(),
        forall|m: int| i <= m < word_end(q, i) ==> is_word_char(#[trigger] q[m]),
    decreases q.len() - i,
{
    if i < q.len() && is_word_char(q[i]) {
        lemma_word_end_bounds(q, i + 1);
    }
}

pub proof fn lemma_space_end_bounds(q: Seq<char>, i: int)
    requires
        0 <= i <= q.len(),
    ensures
        i <= space_end(q, i) <= q.len(),
    decreases q.len() - i,
{
    if i < q.len() && is_space(q[i]) {
        lemma_space_end_bounds(q, i + 1);
    }
}

pub proof fn lemma_closing_bounds(q: Seq<char>, i: int, d: char)
    requires
        1 <= i,
    ensures
        closing_from(q, i, d) matches Some(e) ==> i <= e < q.len() && q[e] == d,
    decreases q.len() - i,
{
    if i < q.len() && !(q[i] == d && q[i - 1] != '\\') {
        lemma_closing_bounds(q, i + 1, d);
    }
}

pub proof fn lemma_value_len_bounds(q: Seq<char>, loc: int)
    requires
        0 <= loc <= q.len(),
    ensures
        0 <= value_len(q, loc) <= q.len() - loc,
{
    if loc < q.len() {
        lemma_closing_bounds(q, loc + 1, ']');
        lemma_closing_bounds(q, loc + 1, '\'');
        lemma_word_end_bounds(q, loc);
    }
}

pub proof fn lemma_scan_bounds(q: Seq<char>, loc: int)
    requires
        0 <= loc <= q.len(),
    ensures
        0 <= scan(q, loc).1 <= q.len() - loc,
        scan(q, loc).0 is Text ==> scan(q, loc).0->Text_0 == q.subrange(loc, loc + scan(q, loc).1),
{
    lemma_value_len_bounds(q, loc);
    if loc < q.len() {
        lemma_keyword_from_spelled(q, loc, 0);
    }
}

pub proof fn lemma_keyword_from_spelled(q: Seq<char>, loc: int, i: int)
    ensures
        keyword_from(q, loc, i) matches Some(k) ==> keyword_at(q, loc, k),
    decreases keyword_table().len() - i,
{
    if 0 <= i < keyword_table().len() && !keyword_at(q, loc, keyword_table()[i]) {
        lemma_keyword_from_spelled(q, loc, i + 1);
    }
}

/// The regular expression of a character of a bare name.
pub open spec fn word_pattern() -> Seq<char> {
    "[a-zA-Z0-9_*]"@
}

/// Relies on regex::Regex::new and regex::Regex::is_match.  The pattern
/// `[a-zA-Z0-9_*]` is a valid expression made of one character class, so
/// compiling it succeeds, and a one-character text matches it exactly when
/// that character is an ASCII letter, an ASCII digit, `_` or `*`.
#[verifier::external_body]
fn class_matches(pattern: &str, c: char) -> (r: bool)
    requires
        pattern@ == word_pattern(),
    ensures
        r == is_word_char(c),
{
    regex::Regex::new(pattern).unwrap().is_match(&c.to_string())
}

impl Parser {
    /// The number of characters of the statement.
    fn query_len(&self) -> (r: usize)
        ensures
            r == self.query@.len(),
    {
        self.query.as_str().unicode_len()
    }

    /// The character at index `i` of the statement.
    fn char_at(&self, i: usize) -> (r: char)
        requires
            i < self.query@.len(),
        ensures
            r == self.query@[i as int],
    {
        self.query.as_str().get_char(i)
    }

    /// The characters from `from` to `to` of the statement.
    fn text(&self, from: usize, to: usize) -> (r: String)
        requires
            from <= to <= self.query@.len(),
        ensures
            r@ == self.query@.subrange(from as int, to as int),
    {
        String::from_str(self.query.as_str().substring_char(from, to))
    }

    /// Whether keyword `k` is spelled at `loc`.
    fn keyword_matches(&self, loc: usize, k: Keyword) -> (r: bool)
        requires
            loc <= self.query@.len(),
        ensures
            r == keyword_at(self.query@, loc as int, k),
    {
        let t = k.text();
        let n = t.unicode_len();
        let len = self.query_len();
        if n > len - loc {
            return false;
        }
        let mut j: usize = 0;
        while j < n
            invariant
                t@ == k.spec_text(),
                n == t@.len(),
                len == self.query@.len(),
                loc + n <= len,
                j <= n,
                forall|m: int| 0 <= m < j ==> char_matches(self.query@[loc + m], #[trigger] t@[m]),
            decreases n - j,
        {
            let c = self.char_at(loc + j);
            let d = t.get_char(j);
            if !(c == d || ('A' <= d && d <= 'Z' && c as u32 == d as u32 + 32)) {
                return false;
            }
            j += 1;
        }
        true
    }

    /// The first keyword of the table spelled at `loc`.
    fn match_keyword(&self, loc: usize) -> (r: Option<Keyword>)
        requires
            loc <= self.query@.len(),
        ensures
            r == keyword_from(self.query@, loc as int, 0),
    {
        let mut i: usize = 0;
        while i < KEYWORD_COUNT
            invariant
                loc <= self.query@.len(),
                i <= KEYWORD_COUNT,
                KEYWORD_COUNT == keyword_table().len(),
                keyword_from(self.query@, loc as int, 0) == keyword_from(
                    self.query@,
                    loc as int,
                    i as int,
                ),
            decreases KEYWORD_COUNT - i,
        {
            let k = keyword_entry(i);
            if self.keyword_matches(loc, k) {
                return Some(k);
            }
            i += 1;
        }
        None
    }

    /// The position of the first `d` from `i` on that no backslash precedes.
    fn find_closing(&self, i: usize, d: char) -> (r: Option<usize>)
        requires
            1 <= i,
        ensures
            r == (match closing_from(self.query@, i as int, d) {
                Some(e) => Some(e as usize),
                None => None,
            }),
    {
        let len = self.query_len();
        let mut j = i;
        while j < len
            invariant
                1 <= i <= j,
                len == self.query@.len(),
                closing_from(self.query@, i as int, d) == closing_from(self.query@, j as int, d),
            decreases len - j,
        {
            if self.char_at(j) == d && self.char_at(j - 1) != '\\' {
                return Some(j);
            }
            j += 1;
        }
        None
    }

    /// The end of the run of name characters that starts at `i`.
    fn find_word_end(&self, i: usize) -> (r: usize)
        requires
            i <= self.query@.len(),
        ensures
            r == word_end(self.query@, i as int),
    {
        let len = self.query_len();
        let mut j = i;
        while j < len
            invariant
                i <= j <= len,
                len == self.query@.len(),
                word_end(self.query@, i as int) == word_end(self.query@, j as int),
            decreases len - j,
        {
            if !class_matches("[a-zA-Z0-9_*]", self.char_at(j)) {
                return j;
            }
            j += 1;
        }
        j
    }

    /// Moves the cursor past the spaces in front of it.
    pub(crate) fn skip_spaces(&mut self)
        requires
            old(self).wf(),
        ensures
            final(self).wf(),
            final(self).query == old(self).query,
            final(self).query_data == old(self).query_data,
            final(self).step == old(self).step,
            final(self).location == space_end(old(self).query@, old(self).location as int),
    {
        let len = self.query_len();
        while self.location < len
            invariant
                self.wf(),
                self.query == old(self).query,
                self.query_data == old(self).query_data,
                self.step == old(self).step,
                len == self.query@.len(),
                space_end(self.query@, old(self).location as int) == space_end(
                    self.query@,
                    self.location as int,
                ),
            decreases len - self.location,
        {
            let c = self.char_at(self.location);
            if !(c == ' ' || c == '\t' || c == '\n' || c == '\r') {
                return;
            }
            self.location += 1;
        }
    }

    /// The length of the literal or name at `loc`.
    fn value_length(&self, loc: usize) -> (r: usize)
        requires
            loc <= self.query@.len(),
        ensures
            r == value_len(self.query@, loc as int),
            loc + r <= self.query@.len() <= usize::MAX,
    {
        proof {
            lemma_value_len_bounds(self.query@, loc as int);
        }
        let len = self.query_len();
        if loc >= len {
            return 0;
        }
        let c = self.char_at(loc);
        if c == '[' || c == '\'' {
            let d = if c == '[' {
                ']'
            } else {
                '\''
            };
            proof {
                lemma_closing_bounds(self.query@, loc + 1, d);
            }
            match self.find_closing(loc + 1, d) {
                Some(e) => e + 1 - loc,
                None => 0,
            }
        } else {
            self.find_word_end(loc) - loc
        }
    }

    /// The token at the cursor and its length.
    pub(crate) fn peek_token(&self) -> (r: (Token, usize))
        requires
            self.wf(),
        ensures
            r.0.view() == scan(self.query@, self.location as int).0,
            r.1 == scan(self.query@, self.location as int).1,
            self.location + r.1 <= self.query@.len() <= usize::MAX,
    {
        proof {
            lemma_scan_bounds(self.query@, self.location as int);
        }
        let loc = self.location;
        if loc >= self.query_len() {
            return (Token::Text(String::new()), 0);
        }
        match self.match_keyword(loc) {
            Some(k) => (Token::Keyword(k), k.text().unicode_len()),
            None => {
                let n = self.value_length(loc);
                (Token::Text(self.text(loc, loc + n)), n)
            },
        }
    }

    /// The token at the cursor, without moving the cursor.
    pub fn peek_token_only(&self) -> (r: Token)
        requires
            self.wf(),
        ensures
            r.view() == scan(self.query@, self.location as int).0,
    {
        self.peek_token().0
    }

    /// Takes the token at the cursor and moves past it and the spaces after it.
    pub fn next_token(&mut self) -> (r: Token)
        requires
            old(self).wf(),
        ensures
            final(self).wf(),
            final(self).query == old(self).query,
            final(self).query_data == old(self).query_data,
            final(self).step == old(self).step,
            r.view() == scan(old(self).query@, old(self).location as int).0,
            old(self).location <= final(self).location,
            r.view().text().len() > 0 ==> old(self).location < final(self).location,
            final(self).location == advance(
                old(self).query@,
                old(self).location as int,
                scan(old(self).query@, old(self).location as int).1,
            ),
    {
        proof {
            lemma_scan_bounds(self.query@, self.location as int);
            lemma_space_end_bounds(
                self.query@,
                self.location + scan(self.query@, self.location as int).1,
            );
        }
        let (t, n) = self.peek_token();
        self.location = self.location + n;
        self.skip_spaces();
        t
    }

    /// The text of the token at the cursor; a keyword in upper case.
    pub fn peek(&self) -> (r: String)
        requires
            self.wf(),
        ensures
            r@ == scan(self.query@, self.location as int).0.text(),
    {
        match self.peek_token().0 {
            Token::Keyword(k) => String::from_str(k.text()),
            Token::Text(s) => s,
        }
    }

    /// Takes the token at the cursor and returns its text; a keyword in upper case.
    pub fn pop(&mut self) -> (r: String)
        requires
            old(self).wf(),
        ensures
            final(self).wf(),
            final(self).query == old(self).query,
            final(self).query_data == old(self).query_data,
            final(self).step == old(self).step,
            r@ == scan(old(self).query@, old(self).location as int).0.text(),
            old(self).location <= final(self).location,
            r@.len() > 0 ==> old(self).location < final(self).location,
            final(self).location == advance(
                old(self).query@,
                old(self).location as int,
                scan(old(self).query@, old(self).location as int).1,
            ),
    {
        match self.next_token() {
            Token::Keyword(k) => String::from_str(k.text()),
            Token::Text(s) => s,
        }
    }

    /// The bare name at the cursor, possibly empty; keywords are not recognised.
    pub fn peek_identifier(&self) -> (r: String)
        requires
            self.wf(),
        ensures
            r@ == scan_word(self.query@, self.location as int),
    {
        proof {
            lemma_word_end_bounds(self.query@, self.location as int);
        }
        let e = self.find_word_end(self.location);
        self.text(self.location, e)
    }

    /// Takes the bare name at the cursor, possibly empty, and the spaces after it.
    pub fn pop_identifier(&mut self) -> (r: String)
        requires
            old(self).wf(),
        ensures
            final(self).wf(),
            final(self).query == old(self).query,
            final(self).query_data == old(self).query_data,
            final(self).step == old(self).step,
            r@ == scan_word(old(self).query@, old(self).location as int),
            old(self).location <= final(self).location,
            r@.len() > 0 ==> old(self).location < final(self).location,
            final(self).location == advance(
                old(self).query@,
                old(self).location as int,
                r@.len() as int,
            ),
    {
        proof {
            lemma_word_end_bounds(self.query@, self.location as int);
        }
        let e = self.find_word_end(self.location);
        let r = self.text(self.location, e);
        proof {
            lemma_space_end_bounds(self.query@, e as int);
        }
        self.location = e;
        self.skip_spaces();
        r
    }

    /// Takes the literal or name at the cursor, possibly empty, and the
    /// spaces after it; keywords are not recognised.
    pub fn pop_string_or_identifier(&mut self) -> (r: String)
        requires
            old(self).wf(),
        ensures
            final(self).wf(),
            final(self).query == old(self).query,
            final(self).query_data == old(self).query_data,
            final(self).step == old(self).step,
            r@ == scan_value(old(self).query@, old(self).location as int),
            r@.len() == value_len(old(self).query@, old(self).location as int),
            old(self).location <= final(self).location,
            r@.len() > 0 ==> old(self).location < final(self).location,
            final(self).location == advance(
                old(self).query@,
                old(self).location as int,
                r@.len() as int,
            ),
    {
        proof {
            lemma_value_len_bounds(self.query@, self.location as int);
        }
        let n = self.value_length(self.location);
        let r = self.text(self.location, self.location + n);
        proof {
            lemma_space_end_bounds(self.query@, self.location + n);
        }
        self.location = self.location + n;
        self.skip_spaces();
        r
    }
}

} // verus!
