use vstd::prelude::*;

use super::constants::keyword_named;
use super::constants::keyword_of_string;
use super::constants::Keyword;
use super::query_types::type_checker::binop_of_keyword;
use super::query_types::type_checker::unop_of_keyword;

verus! {

/// The kind of statement a query describes.
#[derive(Debug, Clone, Copy, PartialEq, Eq, Structural)]
pub enum QueryType {
    Empty,
    DatabaseCreation,
    TableCreation,
    Insert,
    Read,
}

/// Operators that take one operand.
#[derive(Debug, Clone, Copy, PartialEq, Eq, Structural)]
pub enum UnaryOperation {
    Abs,
    Negative,
    LogicalNot,
    BitwiseNot,
    Exists,
}

/// Operators that take two operands; `And` and `Or` are the connectors.
#[derive(Debug, Clone, Copy, PartialEq, Eq, Structural)]
pub enum BinaryOperation {
    Addition,
    Subtraction,
    Multiplication,
    Division,
    Equals,
    NotEquals,
    GreaterThanEqualTo,
    LesserThanEqualTo,
    GreaterThan,
    LesserThan,
    And,
    Or,
}

/// A literal or a name that appears in a statement.
#[derive(Debug, PartialEq, Eq, Hash)]
pub enum Identifier {
    /// Quoted text, kept with its quotes; also the names of tables and databases.
    StringLiteral(String),
    IntLiteral(i32),
    Datatype(String),
    Field(String),
    Array(Vec<Identifier>),
}

/// A tree of operators over identifiers.  `Empty` marks an operand that is
/// not filled yet.
#[derive(Debug, PartialEq, Eq)]
pub enum Expression {
    Empty,
    Identifier(Identifier),
    Unary(UnaryOperation, Box<Expression>),
    Binary(BinaryOperation, Box<(Expression, Expression)>),
}

/// Access modes of a table.
#[derive(Debug, Clone, Copy, PartialEq, Eq, Structural)]
pub enum Mode {
    Fadd,
    Fread,
    Fdelete,
    Lmem,
}

/// Kinds of field constraints.
#[derive(Debug, Clone, Copy, PartialEq, Eq, Structural)]
pub enum ConstraintType {
    Exists,
    Unique,
    PKey,
    FKey,
    Suchthat,
    Default,
    Inc,
}

/// One constraint on a field, with its option expressions.
#[derive(Debug, PartialEq, Eq)]
pub struct Constraint {
    pub constraint_type: ConstraintType,
    pub options: Vec<Expression>,
}

/// What a statement says, filled in by the parser.
#[derive(Debug)]
pub struct Query {
    pub _type: QueryType,
    pub db_name: Identifier,
    pub table_name: Identifier,
    /// Declared columns: datatype, datatype options, field name.
    pub fields: Vec<(Identifier, Vec<Identifier>, Identifier)>,
    pub modes: Vec<Mode>,
    /// Constraints by field, one entry per field, in order of first mention.
    pub constraints: Vec<(Identifier, Vec<Constraint>)>,
    /// The field that receives constraints while a constraint list is read.
    pub curr_constraint: Identifier,
    pub inserted_value: Vec<Identifier>,
    pub inserted_field: Vec<Identifier>,
    pub read_fields: Vec<Identifier>,
    pub conditions: Expression,
}

/// The mathematical value of an `Identifier`.
pub enum IdentView {
    Str(Seq<char>),
    Int(i32),
    Dtype(Seq<char>),
    Field(Seq<char>),
    Array(Seq<IdentView>),
}

/// The mathematical value of an `Expression`.
pub enum ExprView {
    Empty,
    Ident(IdentView),
    Unary(UnaryOperation, Box<ExprView>),
    Binary(BinaryOperation, Box<ExprView>, Box<ExprView>),
}

/// The mathematical value of a `Constraint`.
pub struct ConstraintView {
    pub constraint_type: ConstraintType,
    pub options: Seq<ExprView>,
}

/// The mathematical value of a `Query`.
pub struct QueryView {
    pub kind: QueryType,
    pub db_name: IdentView,
    pub table_name: IdentView,
    pub fields: Seq<(IdentView, Seq<IdentView>, IdentView)>,
    pub modes: Seq<Mode>,
    pub constraints: Seq<(IdentView, Seq<ConstraintView>)>,
    pub curr_constraint: IdentView,
    pub inserted_value: Seq<IdentView>,
    pub inserted_field: Seq<IdentView>,
    pub read_fields: Seq<IdentView>,
    pub conditions: ExprView,
}

impl Identifier {
    pub open spec fn view(&self) -> IdentView
        decreases self,
    {
        match self {
            Identifier::StringLiteral(s) => IdentView::Str(s@),
            Identifier::IntLiteral(n) => IdentView::Int(*n),
            Identifier::Datatype(s) => IdentView::Dtype(s@),
            Identifier::Field(s) => IdentView::Field(s@),
            Identifier::Array(v) => IdentView::Array(
                Seq::new(
                    v.len() as nat,
                    |i: int|
                        if 0 <= i < v.len() {
                            v[i].view()
                        } else {
                            IdentView::Int(0)
                        },
                ),
            ),
        }
    }
}

/// The views of a sequence of identifiers.
pub open spec fn idents_view(v: Seq<Identifier>) -> Seq<IdentView> {
    v.map_values(|x: Identifier| x.view())
}

impl Expression {
    pub open spec fn view(&self) -> ExprView
        decreases self,
    {
        match self {
            Expression::Empty => ExprView::Empty,
            Expression::Identifier(i) => ExprView::Ident(i.view()),
            Expression::Unary(op, e) => ExprView::Unary(*op, Box::new((**e).view())),
            Expression::Binary(op, p) => ExprView::Binary(
                *op,
                Box::new(p.0.view()),
                Box::new(p.1.view()),
            ),
        }
    }
}

/// The views of a sequence of expressions.
pub open spec fn exprs_view(v: Seq<Expression>) -> Seq<ExprView> {
    v.map_values(|x: Expression| x.view())
}

impl Constraint {
    pub open spec fn view(&self) -> ConstraintView {
        ConstraintView { constraint_type: self.constraint_type, options: exprs_view(self.options@) }
    }
}

/// The views of a sequence of constraints.
pub open spec fn constraints_view(v: Seq<Constraint>) -> Seq<ConstraintView> {
    v.map_values(|x: Constraint| x.view())
}

/// The views of declared fields.
pub open spec fn fields_view(v: Seq<(Identifier, Vec<Identifier>, Identifier)>) -> Seq<
    (IdentView, Seq<IdentView>, IdentView),
> {
    v.map_values(
        |f: (Identifier, Vec<Identifier>, Identifier)| (f.0.view(), idents_view(f.1@), f.2.view()),
    )
}

/// The views of constraint entries.
pub open spec fn entries_view(v: Seq<(Identifier, Vec<Constraint>)>) -> Seq<
    (IdentView, Seq<ConstraintView>),
> {
    v.map_values(|c: (Identifier, Vec<Constraint>)| (c.0.view(), constraints_view(c.1@)))
}

impl Query {
    pub open spec fn view(&self) -> QueryView {
        QueryView {
            kind: self._type,
            db_name: self.db_name.view(),
            table_name: self.table_name.view(),
            fields: fields_view(self.fields@),
            modes: self.modes@,
            constraints: entries_view(self.constraints@),
            curr_constraint: self.curr_constraint.view(),
            inserted_value: idents_view(self.inserted_value@),
            inserted_field: idents_view(self.inserted_field@),
            read_fields: idents_view(self.read_fields@),
            conditions: self.conditions.view(),
        }
    }
}

/// The query that a fresh parser holds.
pub open spec fn empty_query_view() -> QueryView {
    QueryView {
        kind: QueryType::Empty,
        db_name: IdentView::Str(Seq::empty()),
        table_name: IdentView::Str(Seq::empty()),
        fields: Seq::empty(),
        modes: Seq::empty(),
        constraints: Seq::empty(),
        curr_constraint: IdentView::Str(Seq::empty()),
        inserted_value: Seq::empty(),
        inserted_field: Seq::empty(),
        read_fields: Seq::empty(),
        conditions: ExprView::Empty,
    }
}

impl Query {
    /// A query with every part empty.
    pub fn new() -> (r: Query)
        ensures
            r.view() == empty_query_view(),
    {
        let r = Query {
            _type: QueryType::Empty,
            db_name: Identifier::StringLiteral(String::new()),
            table_name: Identifier::StringLiteral(String::new()),
            fields: Vec::new(),
            modes: Vec::new(),
            constraints: Vec::new(),
            curr_constraint: Identifier::StringLiteral(String::new()),
            inserted_value: Vec::new(),
            inserted_field: Vec::new(),
            read_fields: Vec::new(),
            conditions: Expression::Empty,
        };
        assert(r.view().fields =~= Seq::empty());
        assert(r.view().constraints =~= Seq::empty());
        assert(r.view().inserted_value =~= Seq::empty());
        assert(r.view().inserted_field =~= Seq::empty());
        assert(r.view().read_fields =~= Seq::empty());
        r
    }
}

/// The unary operation a keyword names, if any.
pub open spec fn unop_of(k: Keyword) -> Option<UnaryOperation> {
    match k {
        Keyword::Abs => Some(UnaryOperation::Abs),
        Keyword::Neg => Some(UnaryOperation::Negative),
        Keyword::Not => Some(UnaryOperation::LogicalNot),
        Keyword::BitwiseNot => Some(UnaryOperation::BitwiseNot),
        Keyword::Exists => Some(UnaryOperation::Exists),
        _ => None,
    }
}

/// The binary operation a keyword names, if any; the connectors included.
pub open spec fn binop_of(k: Keyword) -> Option<BinaryOperation> {
    match k {
        Keyword::Add => Some(BinaryOperation::Addition),
        Keyword::Sub => Some(BinaryOperation::Subtraction),
        Keyword::Mul => Some(BinaryOperation::Multiplication),
        Keyword::Div => Some(BinaryOperation::Division),
        Keyword::Equals => Some(BinaryOperation::Equals),
        Keyword::NotEquals => Some(BinaryOperation::NotEquals),
        Keyword::GreaterEq => Some(BinaryOperation::GreaterThanEqualTo),
        Keyword::LesserEq => Some(BinaryOperation::LesserThanEqualTo),
        Keyword::Greater => Some(BinaryOperation::GreaterThan),
        Keyword::Lesser => Some(BinaryOperation::LesserThan),
        Keyword::And => Some(BinaryOperation::And),
        Keyword::Or => Some(BinaryOperation::Or),
        _ => None,
    }
}

/// The unary operation that a token names; `None` for any other token.
pub fn string_to_unop(token: &String) -> (r: Option<UnaryOperation>)
    ensures
        r == (match keyword_named(token@) {
            Some(k) => unop_of(k),
            None => None,
        }),
{
    match keyword_of_string(token) {
        Some(k) => unop_of_keyword(k),
        None => None,
    }
}

/// The binary operation (connectors included) that a token names; `None`
/// for any other token.
pub fn string_to_binop(token: &String) -> (r: Option<BinaryOperation>)
    ensures
        r == (match keyword_named(token@) {
            Some(k) => binop_of(k),
            None => None,
        }),
{
    match keyword_of_string(token) {
        Some(k) => binop_of_keyword(k),
        None => None,
    }
}

} // verus!
