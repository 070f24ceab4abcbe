use vstd::prelude::*;

verus! {

/// The reserved words and symbols of the language.
///
/// A keyword is recognised case-insensitively at the cursor and is always
/// reported in its upper-case spelling.
#[derive(Debug, Clone, Copy, PartialEq, Eq, Structural)]
pub enum Keyword {
    OpenParen,
    CloseParen,
    Equals,
    NotEquals,
    GreaterEq,
    LesserEq,
    Greater,
    Lesser,
    Comma,
    Semicolon,
    Database,
    Table,
    Insert,
    Read,
    On,
    Structured,
    Mode,
    Fadd,
    Fread,
    Fdelete,
    Lmem,
    Constrained,
    Where,
    Exists,
    Unique,
    PKey,
    FKey,
    Suchthat,
    Default,
    Inc,
    And,
    Or,
    Not,
    Abs,
    Neg,
    BitwiseNot,
    Add,
    Sub,
    Mul,
    Div,
}

impl Keyword {
    /// The spelling of the keyword.
    pub open spec fn spec_text(self) -> Seq<char> {
        match self {
            Keyword::OpenParen => seq!['('],
            Keyword::CloseParen => seq![')'],
            Keyword::Equals => seq!['='],
            Keyword::NotEquals => seq!['!', '='],
            Keyword::GreaterEq => seq!['>', '='],
            Keyword::LesserEq => seq!['<', '='],
            Keyword::Greater => seq!['>'],
            Keyword::Lesser => seq!['<'],
            Keyword::Comma => seq![','],
            Keyword::Semicolon => seq![';'],
            Keyword::Database => seq!['D', 'A', 'T', 'A', 'B', 'A', 'S', 'E'],
            Keyword::Table => seq!['T', 'A', 'B', 'L', 'E'],
            Keyword::Insert => seq!['I', 'N', 'S', 'E', 'R', 'T'],
            Keyword::Read => seq!['R', 'E', 'A', 'D'],
            Keyword::On => seq!['O', 'N'],
            Keyword::Structured => seq!['S', 'T', 'R', 'U', 'C', 'T', 'U', 'R', 'E', 'D'],
            Keyword::Mode => seq!['M', 'O', 'D', 'E'],
            Keyword::Fadd => seq!['F', 'A', 'D', 'D'],
            Keyword::Fread => seq!['F', 'R', 'E', 'A', 'D'],
            Keyword::Fdelete => seq!['F', 'D', 'E', 'L', 'E', 'T', 'E'],
            Keyword::Lmem => seq!['L', 'M', 'E', 'M'],
            Keyword::Constrained => seq!['C', 'O', 'N', 'S', 'T', 'R', 'A', 'I', 'N', 'E', 'D'],
            Keyword::Where => seq!['W', 'H', 'E', 'R', 'E'],
            Keyword::Exists => seq!['E', 'X', 'I', 'S', 'T', 'S'],
            Keyword::Unique => seq!['U', 'N', 'I', 'Q', 'U', 'E'],
            Keyword::PKey => seq!['P', 'K', 'E', 'Y'],
            Keyword::FKey => seq!['F', 'K', 'E', 'Y'],
            Keyword::Suchthat => seq!['S', 'U', 'C', 'H', 'T', 'H', 'A', 'T'],
            Keyword::Default => seq!['D', 'E', 'F', 'A', 'U', 'L', 'T'],
            Keyword::Inc => seq!['I', 'N', 'C'],
            Keyword::And => seq!['A', 'N', 'D'],
            Keyword::Or => seq!['O', 'R'],
            Keyword::Not => seq!['N', 'O', 'T'],
            Keyword::Abs => seq!['A', 'B', 'S'],
            Keyword::Neg => seq!['N', 'E', 'G'],
            Keyword::BitwiseNot => seq!['~'],
            Keyword::Add => seq!['+'],
            Keyword::Sub => seq!['-'],
            Keyword::Mul => seq!['*'],
            Keyword::Div => seq!['/'],
        }
    }

    /// The spelling of the keyword, as a string slice.
    pub fn text(self) -> (r: &'static str)
        ensures
            r@ == self.spec_text(),
    {
        match self {
            Keyword::OpenParen => {
                proof {
                    reveal_strlit("(");
                }
                "("
            },
            Keyword::CloseParen => {
                proof {
                    reveal_strlit(")");
                }
                ")"
            },
            Keyword::Equals => {
                proof {
                    reveal_strlit("=");
                }
                "="
            },
            Keyword::NotEquals => {
                proof {
                    reveal_strlit("!=");
                }
                "!="
            },
            Keyword::GreaterEq => {
                proof {
                    reveal_strlit(">=");
                }
                ">="
            },
            Keyword::LesserEq => {
                proof {
                    reveal_strlit("<=");
                }
                "<="
            },
            Keyword::Greater => {
                proof {
                    reveal_strlit(">");
                }
                ">"
            },
            Keyword::Lesser => {
                proof {
                    reveal_strlit("<");
                }
                "<"
            },
            Keyword::Comma => {
                proof {
                    reveal_strlit(",");
                }
                ","
            },
            Keyword::Semicolon => {
                proof {
                    reveal_strlit(";");
                }
                ";"
            },
            Keyword::Database => {
                proof {
                    reveal_strlit("DATABASE");
                }
                "DATABASE"
            },
            Keyword::Table => {
                proof {
                    reveal_strlit("TABLE");
                }
                "TABLE"
            },
            Keyword::Insert => {
                proof {
                    reveal_strlit("INSERT");
                }
                "INSERT"
            },
            Keyword::Read => {
                proof {
                    reveal_strlit("READ");
                }
                "READ"
            },
            Keyword::On => {
                proof {
                    reveal_strlit("ON");
                }
                "ON"
            },
            Keyword::Structured => {
                proof {
                    reveal_strlit("STRUCTURED");
                }
                "STRUCTURED"
            },
            Keyword::Mode => {
                proof {
                    reveal_strlit("MODE");
                }
                "MODE"
            },
            Keyword::Fadd => {
                proof {
                    reveal_strlit("FADD");
                }
                "FADD"
            },
            Keyword::Fread => {
                proof {
                    reveal_strlit("FREAD");
                }
                "FREAD"
            },
            Keyword::Fdelete => {
                proof {
                    reveal_strlit("FDELETE");
                }
                "FDELETE"
            },
            Keyword::Lmem => {
                proof {
                    reveal_strlit("LMEM");
                }
                "LMEM"
            },
            Keyword::Constrained => {
                proof {
                    reveal_strlit("CONSTRAINED");
                }
                "CONSTRAINED"
            },
            Keyword::Where => {
                proof {
                    reveal_strlit("WHERE");
                }
                "WHERE"
            },
            Keyword::Exists => {
                proof {
                    reveal_strlit("EXISTS");
                }
                "EXISTS"
            },
            Keyword::Unique => {
                proof {
                    reveal_strlit("UNIQUE");
                }
                "UNIQUE"
            },
            Keyword::PKey => {
                proof {
                    reveal_strlit("PKEY");
                }
                "PKEY"
            },
            Keyword::FKey => {
                proof {
                    reveal_strlit("FKEY");
                }
                "FKEY"
            },
            Keyword::Suchthat => {
                proof {
                    reveal_strlit("SUCHTHAT");
                }
                "SUCHTHAT"
            },
            Keyword::Default => {
                proof {
                    reveal_strlit("DEFAULT");
                }
                "DEFAULT"
            },
            Keyword::Inc => {
                proof {
                    reveal_strlit("INC");
                }
                "INC"
            },
            Keyword::And => {
                proof {
                    reveal_strlit("AND");
                }
                "AND"
            },
            Keyword::Or => {
                proof {
                    reveal_strlit("OR");
                }
                "OR"
            },
            Keyword::Not => {
                proof {
                    reveal_strlit("NOT");
                }
                "NOT"
            },
            Keyword::Abs => {
                proof {
                    reveal_strlit("ABS");
                }
                "ABS"
            },
            Keyword::Neg => {
                proof {
                    reveal_strlit("NEG");
                }
                "NEG"
            },
            Keyword::BitwiseNot => {
                proof {
                    reveal_strlit("~");
                }
                "~"
            },
            Keyword::Add => {
                proof {
                    reveal_strlit("+");
                }
                "+"
            },
            Keyword::Sub => {
                proof {
                    reveal_strlit("-");
                }
                "-"
            },
            Keyword::Mul => {
                proof {
                    reveal_strlit("*");
                }
                "*"
            },
            Keyword::Div => {
                proof {
                    reveal_strlit("/");
                }
                "/"
            },
        }
    }
}

/// The keyword table in the order in which the lexer tries it.  A keyword
/// that is a prefix of another one (`>` of `>=`) stands after it, so the
/// first match is also the longest one.
pub open spec fn keyword_table() -> Seq<Keyword> {
    seq![
        Keyword::OpenParen,
        Keyword::CloseParen,
        Keyword::Equals,
        Keyword::NotEquals,
        Keyword::GreaterEq,
        Keyword::LesserEq,
        Keyword::Greater,
        Keyword::Lesser,
        Keyword::Comma,
        Keyword::Semicolon,
        Keyword::Database,
        Keyword::Table,
        Keyword::Insert,
        Keyword::Read,
        Keyword::On,
        Keyword::Structured,
        Keyword::Mode,
        Keyword::Fadd,
        Keyword::Fread,
        Keyword::Fdelete,
        Keyword::Lmem,
        Keyword::Constrained,
        Keyword::Where,
        Keyword::Exists,
        Keyword::Unique,
        Keyword::PKey,
        Keyword::FKey,
        Keyword::Suchthat,
        Keyword::Default,
        Keyword::Inc,
        Keyword::And,
        Keyword::Or,
        Keyword::Not,
        Keyword::Abs,
        Keyword::Neg,
        Keyword::BitwiseNot,
        Keyword::Add,
        Keyword::Sub,
        Keyword::Mul,
        Keyword::Div,
    ]
}

/// The number of entries of the keyword table.
pub const KEYWORD_COUNT: usize = 40;

/// The entry `i` of the keyword table.
pub fn keyword_entry(i: usize) -> (k: Keyword)
    requires
        i < keyword_table().len(),
    ensures
        k == keyword_table()[i as int],
{
    match i {
        0 => Keyword::OpenParen,
        1 => Keyword::CloseParen,
        2 => Keyword::Equals,
        3 => Keyword::NotEquals,
        4 => Keyword::GreaterEq,
        5 => Keyword::LesserEq,
        6 => Keyword::Greater,
        7 => Keyword::Lesser,
        8 => Keyword::Comma,
        9 => Keyword::Semicolon,
        10 => Keyword::Database,
        11 => Keyword::Table,
        12 => Keyword::Insert,
        13 => Keyword::Read,
        14 => Keyword::On,
        15 => Keyword::Structured,
        16 => Keyword::Mode,
        17 => Keyword::Fadd,
        18 => Keyword::Fread,
        19 => Keyword::Fdelete,
        20 => Keyword::Lmem,
        21 => Keyword::Constrained,
        22 => Keyword::Where,
        23 => Keyword::Exists,
        24 => Keyword::Unique,
        25 => Keyword::PKey,
        26 => Keyword::FKey,
        27 => Keyword::Suchthat,
        28 => Keyword::Default,
        29 => Keyword::Inc,
        30 => Keyword::And,
        31 => Keyword::Or,
        32 => Keyword::Not,
        33 => Keyword::Abs,
        34 => Keyword::Neg,
        35 => Keyword::BitwiseNot,
        36 => Keyword::Add,
        37 => Keyword::Sub,
        38 => Keyword::Mul,
        _ => Keyword::Div,
    }
}

/// The first keyword of the table, from entry `i` on, spelled exactly `t`.
pub open spec fn keyword_named_from(t: Seq<char>, i: int) -> Option<Keyword>
    decreases keyword_table().len() - i,
{
    if i < 0 || i >= keyword_table().len() {
        None
    } else if keyword_table()[i].spec_text() == t {
        Some(keyword_table()[i])
    } else {
        keyword_named_from(t, i + 1)
    }
}

/// The keyword spelled exactly `t`, if any.
pub open spec fn keyword_named(t: Seq<char>) -> Option<Keyword> {
    keyword_named_from(t, 0)
}

/// The keyword spelled exactly as `token`, if any.
pub fn keyword_of_string(token: &String) -> (r: Option<Keyword>)
    ensures
        r == keyword_named(token@),
{
    let mut i: usize = 0;
    while i < KEYWORD_COUNT
        invariant
            i <= KEYWORD_COUNT,
            KEYWORD_COUNT == keyword_table().len(),
            keyword_named(token@) == keyword_named_from(token@, i as int),
        decreases KEYWORD_COUNT - i,
    {
        let k = keyword_entry(i);
        let spelled = String::from_str(k.text());
        if spelled.eq(token) {
            return Some(k);
        }
        i += 1;
    }
    None
}

} // verus!
