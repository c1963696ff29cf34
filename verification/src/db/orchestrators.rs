use vstd::prelude::*;

verus! {

/// Columns of the orchestrators table.
#[allow(non_camel_case_types)]
#[derive(Debug, Clone, Copy, PartialEq, Eq, Structural)]
pub enum OrchestratorColumns {
    ID,
    NAME,
    PUBLIC_UUID,
}

impl OrchestratorColumns {
    /// The name it stands for in the database.
    pub open spec fn name(self) -> Seq<char> {
        match self {
            OrchestratorColumns::ID => "id"@,
            OrchestratorColumns::NAME => "name"@,
            OrchestratorColumns::PUBLIC_UUID => "public_uuid"@,
        }
    }

    /// The name it stands for in the database.
    pub fn as_str(&self) -> (r: &'static str)
        ensures
            r@ == self.name(),
    {
        match self {
            OrchestratorColumns::ID => "id",
            OrchestratorColumns::NAME => "name",
            OrchestratorColumns::PUBLIC_UUID => "public_uuid",
        }
    }

    /// The name it stands for in the database, as a `String`.
    pub fn to_string(&self) -> (r: String)
        ensures
            r@ == self.name(),
    {
        self.as_str().to_owned()
    }
}

} // verus!
