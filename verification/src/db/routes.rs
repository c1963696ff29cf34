use vstd::prelude::*;

verus! {

/// Columns of the routes table.
#[allow(non_camel_case_types)]
#[derive(Debug, Clone, Copy, PartialEq, Eq, Structural)]
pub enum ServiceRouteColumns {
    ID,
    IMAGE_FK,
    PREFIX,
    EXPOSED_PORT,
    SEGMENTS,
    HTTPS,
}

impl ServiceRouteColumns {
    /// The name it stands for in the database.
    pub open spec fn name(self) -> Seq<char> {
        match self {
            ServiceRouteColumns::ID => "id"@,
            ServiceRouteColumns::IMAGE_FK => "image_fk"@,
            ServiceRouteColumns::PREFIX => "prefix"@,
            ServiceRouteColumns::EXPOSED_PORT => "exposed_port"@,
            ServiceRouteColumns::SEGMENTS => "segments"@,
            ServiceRouteColumns::HTTPS => "https"@,
        }
    }

    /// The name it stands for in the database.
    pub fn as_str(&self) -> (r: &'static str)
        ensures
            r@ == self.name(),
    {
        match self {
            ServiceRouteColumns::ID => "id",
            ServiceRouteColumns::IMAGE_FK => "image_fk",
            ServiceRouteColumns::PREFIX => "prefix",
            ServiceRouteColumns::EXPOSED_PORT => "exposed_port",
            ServiceRouteColumns::SEGMENTS => "segments",
            ServiceRouteColumns::HTTPS => "https",
        }
    }

    /// The name it stands for in the database, as a `String`.
    pub fn to_string(&self) -> (r: String)
        ensures
            r@ == self.name(),
    {
        self.as_str().to_owned()
    }
}

/// The query for the route of a request path: the route with the most segments
/// whose prefix starts the path, with its image.
pub fn route_resolution_sql() -> (sql: String)
    ensures
        sql@ == "SELECT r.id as r_id, image_fk, prefix, exposed_port, exposed_port, segments, img.docker_image_id, r.https  FROM routes r LEFT JOIN images img on r.image_fk = img.id where $1 LIKE prefix || '%' ORDER BY segments DESC LIMIT 1"@,
{
    "SELECT r.id as r_id, image_fk, prefix, exposed_port, exposed_port, segments, img.docker_image_id, r.https  FROM routes r LEFT JOIN images img on r.image_fk = img.id where $1 LIKE prefix || '%' ORDER BY segments DESC LIMIT 1".to_owned()
}

} // verus!
