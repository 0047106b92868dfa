//! Statement records: the typed result of a successful parse, together with
//! the error type reported on failure, and the spec-level models of both.
use vstd::prelude::*;

verus! {

/// The type of a table column: the dialect recognizes exactly two.
#[derive(Debug, Clone, Copy)]
pub enum SqlType {
    Int,
    Text,
}

impl PartialEq for SqlType {
    fn eq(&self, other: &SqlType) -> bool {
        match (self, other) {
            (SqlType::Int, SqlType::Int) => true,
            (SqlType::Text, SqlType::Text) => true,
            _ => false,
        }
    }
}

impl vstd::std_specs::cmp::PartialEqSpecImpl for SqlType {
    open spec fn obeys_eq_spec() -> bool {
        true
    }

    open spec fn eq_spec(&self, other: &SqlType) -> bool {
        self == other
    }
}

impl SqlType {
    /// The keyword that denotes this column type in statement text.
    pub open spec fn keyword(self) -> Seq<char> {
        match self {
            SqlType::Int => "INT"@,
            SqlType::Text => "TEXT"@,
        }
    }

    /// Reads a column type from its keyword; any other spelling is an
    /// unknown-type error carrying the offending text.
    pub open spec fn from_keyword(s: Seq<char>) -> Result<SqlType, ErrorV> {
        if s == "INT"@ {
            Ok(SqlType::Int)
        } else if s == "TEXT"@ {
            Ok(SqlType::Text)
        } else {
            Err(ErrorV::UnknownType(s))
        }
    }

    /// Exact-match keyword parsing of a column type.
    pub fn from_str(s: &str) -> (r: Result<SqlType, ParseError>)
        ensures
            match r {
                Ok(t) => SqlType::from_keyword(s@) == Ok::<SqlType, ErrorV>(t),
                Err(e) => SqlType::from_keyword(s@) == Err::<SqlType, ErrorV>(e@),
            },
    {
        if str_eq(s, "INT") {
            Ok(SqlType::Int)
        } else if str_eq(s, "TEXT") {
            Ok(SqlType::Text)
        } else {
            Err(ParseError::UnknownType(s.to_owned()))
        }
    }
}

/// Compares two string slices character by character.
pub fn str_eq(a: &str, b: &str) -> (r: bool)
    ensures
        r == (a@ == b@),
{
    let n = a.unicode_len();
    if n != b.unicode_len() {
        assert(a@ != b@) by {
            assert(a@.len() != b@.len());
        }
        return false;
    }
    let mut i: usize = 0;
    while i < n
        invariant
            n == a@.len(),
            n == b@.len(),
            0 <= i <= n,
            forall|j: int| 0 <= j < i ==> a@[j] == b@[j],
        decreases n - i,
    {
        if a.get_char(i) != b.get_char(i) {
            return false;
        }
        i += 1;
    }
    assert(a@ =~= b@);
    true
}

/// One column of a `CREATE TABLE` statement: a name and a type.
#[derive(Debug, PartialEq)]
pub struct ColumnDef {
    pub column_name: String,
    pub column_type: SqlType,
}

/// Spec model of a column definition.
pub struct ColumnDefV {
    pub column_name: Seq<char>,
    pub column_type: SqlType,
}

impl View for ColumnDef {
    type V = ColumnDefV;

    open spec fn view(&self) -> ColumnDefV {
        ColumnDefV { column_name: self.column_name@, column_type: self.column_type }
    }
}

/// A parsed `CREATE TABLE` statement.
#[derive(Debug, PartialEq)]
pub struct CreateTable {
    pub table_name: String,
    pub column_defs: Vec<ColumnDef>,
}

/// Spec model of a `CREATE TABLE` statement.
pub struct CreateTableV {
    pub table_name: Seq<char>,
    pub column_defs: Seq<ColumnDefV>,
}

impl View for CreateTable {
    type V = CreateTableV;

    open spec fn view(&self) -> CreateTableV {
        CreateTableV {
            table_name: self.table_name@,
            column_defs: self.column_defs@.map_values(|c: ColumnDef| c@),
        }
    }
}

/// A parsed `SELECT * FROM <table>` statement.
#[derive(Debug, PartialEq)]
pub struct SelectStmnt {
    pub table_name: String,
    pub select_columns: String,
}

/// Spec model of a select statement.
pub struct SelectStmntV {
    pub table_name: Seq<char>,
    pub select_columns: Seq<char>,
}

impl View for SelectStmnt {
    type V = SelectStmntV;

    open spec fn view(&self) -> SelectStmntV {
        SelectStmntV { table_name: self.table_name@, select_columns: self.select_columns@ }
    }
}

/// A parsed `INSERT INTO` statement. The values stay raw text: resolving
/// their target column types needs information the statement does not carry.
#[derive(Debug, PartialEq)]
pub struct InsertStmnt {
    pub table_name: String,
    pub columns: Vec<String>,
    pub values: Vec<String>,
}

/// Spec model of an insert statement.
pub struct InsertStmntV {
    pub table_name: Seq<char>,
    pub columns: Seq<Seq<char>>,
    pub values: Seq<Seq<char>>,
}

impl View for InsertStmnt {
    type V = InsertStmntV;

    open spec fn view(&self) -> InsertStmntV {
        InsertStmntV {
            table_name: self.table_name@,
            columns: self.columns@.map_values(|s: String| s@),
            values: self.values@.map_values(|s: String| s@),
        }
    }
}

/// The tagged union over the three statement kinds; exactly one variant is
/// populated per successful parse.
#[derive(Debug, PartialEq)]
pub enum ParsedStmnt {
    CreateTable(CreateTable),
    SelectStmnt(SelectStmnt),
    InsertStmnt(InsertStmnt),
}

/// Spec model of a parsed statement.
pub enum StmntV {
    CreateTable(CreateTableV),
    SelectStmnt(SelectStmntV),
    InsertStmnt(InsertStmntV),
}

impl View for ParsedStmnt {
    type V = StmntV;

    open spec fn view(&self) -> StmntV {
        match self {
            ParsedStmnt::CreateTable(c) => StmntV::CreateTable(c@),
            ParsedStmnt::SelectStmnt(s) => StmntV::SelectStmnt(s@),
            ParsedStmnt::InsertStmnt(i) => StmntV::InsertStmnt(i@),
        }
    }
}

/// The statement kind named by a missing-field error.
#[derive(Debug, Clone, Copy, PartialEq, Eq, Structural)]
pub enum StmntKind {
    CreateTable,
    Select,
    Insert,
}

/// The required field named by a missing-field error.
#[derive(Debug, Clone, Copy, PartialEq, Eq, Structural)]
pub enum FieldName {
    TableName,
    ColumnDefs,
    ColumnName,
    ColumnType,
    SelectColumns,
    Columns,
    Values,
}

/// Every way a parse can fail. Each error is returned to the caller of the
/// parse entry point; there is no retry and no partial result.
#[derive(Debug, PartialEq)]
pub enum ParseError {
    /// The grammar engine rejected the text outright.
    Syntax,
    /// The text tokenized, but no leading keyword matched a statement kind.
    UnrecognizedStatement,
    /// A required field never appeared during accumulation.
    MissingField(StmntKind, FieldName),
    /// A column-type token matched neither recognized type keyword.
    UnknownType(String),
    /// An insert statement's column and value lists differ in length.
    ArityMismatch(usize, usize),
}

/// Spec model of a parse error.
pub enum ErrorV {
    Syntax,
    UnrecognizedStatement,
    MissingField(StmntKind, FieldName),
    UnknownType(Seq<char>),
    ArityMismatch(nat, nat),
}

impl View for ParseError {
    type V = ErrorV;

    open spec fn view(&self) -> ErrorV {
        match self {
            ParseError::Syntax => ErrorV::Syntax,
            ParseError::UnrecognizedStatement => ErrorV::UnrecognizedStatement,
            ParseError::MissingField(k, f) => ErrorV::MissingField(*k, *f),
            ParseError::UnknownType(s) => ErrorV::UnknownType(s@),
            ParseError::ArityMismatch(c, v) => ErrorV::ArityMismatch(*c as nat, *v as nat),
        }
    }
}

/// Spec view of a full parse result.
pub open spec fn result_view(r: Result<ParsedStmnt, ParseError>) -> Result<StmntV, ErrorV> {
    match r {
        Ok(p) => Ok(p@),
        Err(e) => Err(e@),
    }
}

} // verus!
