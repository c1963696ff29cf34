use vstd::prelude::*;

verus! {

/// Columns of the requests table.
#[allow(non_camel_case_types)]
#[derive(Debug, Clone, Copy, PartialEq, Eq, Structural)]
pub enum EServiceRequestColumns {
    ID,
    UUID,
    PATH,
    METHOD,
    IMAGE_FK,
    ORCHESTRATOR_INSTANCE_FK,
    STATUS_CODE,
}

impl EServiceRequestColumns {
    /// The name it stands for in the database.
    pub open spec fn name(self) -> Seq<char> {
        match self {
            EServiceRequestColumns::ID => "id"@,
            EServiceRequestColumns::UUID => "uuid"@,
            EServiceRequestColumns::PATH => "path"@,
            EServiceRequestColumns::METHOD => "method"@,
            EServiceRequestColumns::IMAGE_FK => "image_fk"@,
            EServiceRequestColumns::ORCHESTRATOR_INSTANCE_FK => "orchestrator_instance_fk"@,
            EServiceRequestColumns::STATUS_CODE => "status_code"@,
        }
    }

    /// The name it stands for in the database.
    pub fn as_str(&self) -> (r: &'static str)
        ensures
            r@ == self.name(),
    {
        match self {
            EServiceRequestColumns::ID => "id",
            EServiceRequestColumns::UUID => "uuid",
            EServiceRequestColumns::PATH => "path",
            EServiceRequestColumns::METHOD => "method",
            EServiceRequestColumns::IMAGE_FK => "image_fk",
            EServiceRequestColumns::ORCHESTRATOR_INSTANCE_FK => "orchestrator_instance_fk",
            EServiceRequestColumns::STATUS_CODE => "status_code",
        }
    }

    /// The name it stands for in the database, as a `String`.
    pub fn to_string(&self) -> (r: String)
        ensures
            r@ == self.name(),
    {
        self.as_str().to_owned()
    }
}

} // verus!
