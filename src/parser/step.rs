use vstd::prelude::*;

verus! {

/// The states of the statement parser.  Each statement kind has its own
/// states; all of them share `Start` and `End`.
#[derive(Debug, Clone, Copy, PartialEq, Eq, Structural)]
pub enum Step {
    Start,
    // table creation
    DefineTableName,
    DefineTableDatabase,
    DefineFieldDatatype,
    DefineFieldDatatypeOption,
    DefineFieldIdentifier,
    DefineTableStructureCloseParen,
    DefineTableMode,
    DefineConstraintOn,
    DefineConstraintIdentifier,
    DefineConstraint,
    DefineConstraintOption,
    DefineConstraintCloseParen,
    // insertion
    InsertValueIdentifier,
    InsertTable,
    InsertFieldIdentifier,
    InsertDatabase,
    // reading
    ReadFieldIdentifier,
    ReadTableName,
    ReadDatabaseName,
    ReadConditionPart,
    End,
}

impl Step {
    /// The states that the insertion handler runs.
    pub open spec fn is_insert_step(self) -> bool {
        match self {
            Step::InsertValueIdentifier | Step::InsertTable | Step::InsertFieldIdentifier
            | Step::InsertDatabase => true,
            _ => false,
        }
    }

    /// The states that the read handler runs.
    pub open spec fn is_read_step(self) -> bool {
        match self {
            Step::ReadFieldIdentifier | Step::ReadTableName | Step::ReadDatabaseName
            | Step::ReadConditionPart => true,
            _ => false,
        }
    }
}

} // verus!
