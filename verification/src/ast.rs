//! Names, source locations and the statements that the engine builds itself.
use vstd::prelude::*;

verus! {

/// An identifier of a query, such as the name of a parameter.
#[derive(Debug, PartialEq, Eq, Hash)]
pub struct Ident {
    pub value: String,
}

impl View for Ident {
    type V = Seq<char>;

    open spec fn view(&self) -> Seq<char> {
        self.value@
    }
}

impl Clone for Ident {
    fn clone(&self) -> (res: Self)
        ensures
            res == *self,
    {
        Ident { value: self.value.clone() }
    }
}

impl Ident {
    /// The identifier that is spelled `value`.
    pub fn new(value: &str) -> (res: Ident)
        ensures
            res@ == value@,
    {
        Ident { value: value.to_owned() }
    }

    /// The identifier's spelling.
    pub fn as_str(&self) -> (res: &str)
        ensures
            res@ == self@,
    {
        self.value.as_str()
    }
}

/// The spellings of `idents`, in order.
pub open spec fn spellings(idents: Seq<Ident>) -> Seq<Seq<char>> {
    idents.map_values(|i: Ident| i@)
}

/// A place in a source file. Lines and columns start from one.
#[derive(Debug, Clone, Copy, PartialEq, Eq, Structural)]
pub struct Location {
    pub line: u64,
    pub column: u64,
}

/// The place that an error or a definition comes from.
#[derive(Debug, PartialEq, Eq)]
pub enum SourceLocation {
    /// Nothing is known of the place.
    Unknown,
    /// One place in the named file.
    Single(String, Location),
}

impl Clone for SourceLocation {
    fn clone(&self) -> (res: Self)
        ensures
            res == *self,
    {
        match self {
            SourceLocation::Unknown => SourceLocation::Unknown,
            SourceLocation::Single(file, location) => SourceLocation::Single(
                file.clone(),
                *location,
            ),
        }
    }
}

impl SourceLocation {
    /// The name of the file that the location is in.
    pub open spec fn file_name(&self) -> Option<Seq<char>> {
        match self {
            SourceLocation::Unknown => None,
            SourceLocation::Single(file, _) => Some(file@),
        }
    }

    /// The file that the location is in, where it is known.
    pub fn file(&self) -> (res: Option<String>)
        ensures
            match res {
                Some(file) => self.file_name() == Some(file@),
                None => self.file_name() is None,
            },
    {
        match self {
            SourceLocation::Unknown => None,
            SourceLocation::Single(file, _) => Some(file.clone()),
        }
    }
}

/// The name of a table, part by part.
#[derive(Debug, PartialEq, Eq)]
pub struct ObjectName {
    pub parts: Vec<Ident>,
}

/// A query that selects all columns of a table.
#[derive(Debug, PartialEq, Eq)]
pub struct Query {
    pub from: ObjectName,
}

/// A statement that an engine runs.
#[derive(Debug, PartialEq, Eq)]
pub enum Statement {
    /// Creates a table that holds what a query selects.
    CreateTableAs { name: ObjectName, query: Query, temporary: bool },
}

/// The query that selects all columns of a table.
pub fn select_star_from(from: ObjectName) -> (res: Query)
    ensures
        res == (Query { from }),
{
    Query { from }
}

/// The statement that creates a table that holds what a query selects.
pub fn create_table_as(name: ObjectName, query: Query, temporary: bool) -> (res: Statement)
    ensures
        res == (Statement::CreateTableAs { name, query, temporary }),
{
    Statement::CreateTableAs { name, query, temporary }
}

/// An identifier stands for its spelling, and a list of identifiers for their spellings in order.
pub proof fn law_identifiers_stand_for_their_spelling(idents: Seq<Ident>)
    ensures
        spellings(idents).len() == idents.len(),
        forall|i: int|
            0 <= i < idents.len() ==> #[trigger] spellings(idents)[i] == idents[i].value@,
        forall|ident: Ident| #[trigger] ident@ == ident.value@,
{
}

} // verus!
