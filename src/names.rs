use vstd::prelude::*;

verus! {

/// Name of a keyspace, compared by its exact text.
#[derive(Debug, Clone, Hash)]
pub struct KeyspaceName(String);

/// Name of a table, compared by its exact text.
#[derive(Debug, Clone, Hash)]
pub struct TableName(String);

/// Name of a column, compared by its exact text.
#[derive(Debug, Clone, Hash)]
pub struct FieldName(String);

impl View for KeyspaceName {
    type V = Seq<char>;

    closed spec fn view(&self) -> Seq<char> {
        self.0@
    }
}

impl View for TableName {
    type V = Seq<char>;

    closed spec fn view(&self) -> Seq<char> {
        self.0@
    }
}

impl View for FieldName {
    type V = Seq<char>;

    closed spec fn view(&self) -> Seq<char> {
        self.0@
    }
}

impl KeyspaceName {
    pub fn new(name: String) -> (r: KeyspaceName)
        ensures
            r@ == name@,
    {
        KeyspaceName(name)
    }

    pub fn as_str(&self) -> (r: &str)
        ensures
            r@ == self@,
    {
        self.0.as_str()
    }

    /// The keyspace's name as an owned string.
    pub fn to_string(&self) -> (r: String)
        ensures
            r@ == self@,
    {
        self.0.clone()
    }

    pub fn duplicate(&self) -> (r: KeyspaceName)
        ensures
            r@ == self@,
    {
        KeyspaceName(self.0.clone())
    }

    pub fn into_string(self) -> (r: String)
        ensures
            r@ == self@,
    {
        self.0
    }
}

impl TableName {
    pub fn new(name: String) -> (r: TableName)
        ensures
            r@ == name@,
    {
        TableName(name)
    }

    pub fn as_str(&self) -> (r: &str)
        ensures
            r@ == self@,
    {
        self.0.as_str()
    }

    pub fn to_string(&self) -> (r: String)
        ensures
            r@ == self@,
    {
        self.0.clone()
    }

    pub fn duplicate(&self) -> (r: TableName)
        ensures
            r@ == self@,
    {
        TableName(self.0.clone())
    }

    /// Whether both names hold the same text.
    pub fn same_as(&self, other: &TableName) -> (r: bool)
        ensures
            r == (self@ == other@),
    {
        self.0 == other.0
    }
}

impl FieldName {
    pub fn new(name: String) -> (r: FieldName)
        ensures
            r@ == name@,
    {
        FieldName(name)
    }

    pub fn as_str(&self) -> (r: &str)
        ensures
            r@ == self@,
    {
        self.0.as_str()
    }

    pub fn duplicate(&self) -> (r: FieldName)
        ensures
            r@ == self@,
    {
        FieldName(self.0.clone())
    }

    pub fn into_string(self) -> (r: String)
        ensures
            r@ == self@,
    {
        self.0
    }
}

} // verus!
