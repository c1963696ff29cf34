use vstd::prelude::*;

verus! {

/// Columns of the images table.
#[allow(non_camel_case_types)]
#[derive(Debug, Clone, Copy, PartialEq, Eq, Structural)]
pub enum ServiceImageColumns {
    ID,
    DOCKER_IMAGE_ID,
}

impl ServiceImageColumns {
    /// The name it stands for in the database.
    pub open spec fn name(self) -> Seq<char> {
        match self {
            ServiceImageColumns::ID => "id"@,
            ServiceImageColumns::DOCKER_IMAGE_ID => "docker_image_id"@,
        }
    }

    /// The name it stands for in the database.
    pub fn as_str(&self) -> (r: &'static str)
        ensures
            r@ == self.name(),
    {
        match self {
            ServiceImageColumns::ID => "id",
            ServiceImageColumns::DOCKER_IMAGE_ID => "docker_image_id",
        }
    }

    /// The name it stands for in the database, as a `String`.
    pub fn to_string(&self) -> (r: String)
        ensures
            r@ == self.name(),
    {
        self.as_str().to_owned()
    }
}

} // verus!
