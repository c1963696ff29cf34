use vstd::prelude::*;

verus! {

/// Columns of the container instances table.
#[allow(non_camel_case_types)]
#[derive(Debug, Clone, Copy, PartialEq, Eq, Structural)]
pub enum ContainerInstances {
    ID,
    CONTAINER_FK,
    UUID,
}

impl ContainerInstances {
    /// The name it stands for in the database.
    pub open spec fn name(self) -> Seq<char> {
        match self {
            ContainerInstances::ID => "id"@,
            ContainerInstances::CONTAINER_FK => "container_fk"@,
            ContainerInstances::UUID => "uuid"@,
        }
    }

    /// The name it stands for in the database.
    pub fn as_str(&self) -> (r: &'static str)
        ensures
            r@ == self.name(),
    {
        match self {
            ContainerInstances::ID => "id",
            ContainerInstances::CONTAINER_FK => "container_fk",
            ContainerInstances::UUID => "uuid",
        }
    }

    /// The name it stands for in the database, as a `String`.
    pub fn to_string(&self) -> (r: String)
        ensures
            r@ == self.name(),
    {
        self.as_str().to_owned()
    }
}

} // verus!
