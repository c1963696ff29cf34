use vstd::prelude::*;

verus! {

/// Columns of the request trace types table.
#[allow(non_camel_case_types)]
#[derive(Debug, Clone, Copy, PartialEq, Eq, Structural)]
pub enum ERequestTraceTypesColumns {
    ID,
    DESCRIPTION,
}

impl ERequestTraceTypesColumns {
    /// The name it stands for in the database.
    pub open spec fn name(self) -> Seq<char> {
        match self {
            ERequestTraceTypesColumns::ID => "id"@,
            ERequestTraceTypesColumns::DESCRIPTION => "description"@,
        }
    }

    /// The name it stands for in the database.
    pub fn as_str(&self) -> (r: &'static str)
        ensures
            r@ == self.name(),
    {
        match self {
            ERequestTraceTypesColumns::ID => "id",
            ERequestTraceTypesColumns::DESCRIPTION => "description",
        }
    }

    /// The name it stands for in the database, as a `String`.
    pub fn to_string(&self) -> (r: String)
        ensures
            r@ == self.name(),
    {
        self.as_str().to_owned()
    }
}

} // verus!
