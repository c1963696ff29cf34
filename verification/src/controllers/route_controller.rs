use crate::models::service_image_models::ServiceImage;
use crate::models::service_route_model::ServiceRoute;
use std::sync::Arc;
use vstd::prelude::*;

verus! {

/// A row of the route resolution query: the best matching route and its image.
pub struct RouteRow {
    pub r_id: i32,
    pub image_fk: i32,
    pub prefix: String,
    pub exposed_port: String,
    pub segments: i32,
    pub https: bool,
    pub docker_image_id: String,
}

/// The route that a row describes.
pub open spec fn row_route(row: RouteRow) -> ServiceRoute {
    ServiceRoute {
        id: row.r_id,
        image_fk: Arc::new(row.image_fk),
        prefix: row.prefix,
        exposed_port: row.exposed_port,
        segments: row.segments,
        https: row.https,
    }
}

/// The image that a row names.
pub open spec fn row_image(row: RouteRow) -> ServiceImage {
    ServiceImage { id: row.image_fk, docker_image_id: row.docker_image_id }
}

/// Reads the route and image of a request path from the rows of the route
/// resolution query: the first row gives both; with no row there is neither. A
/// query error is passed on.
pub fn route_resolver(
    queried: Result<Vec<RouteRow>, String>,
) -> (r: Result<(Option<ServiceRoute>, Option<ServiceImage>), String>)
    ensures
        queried matches Err(e) ==> r == Err::<(Option<ServiceRoute>, Option<ServiceImage>), String>(e),
        queried matches Ok(rows) ==> {
            &&& rows@.len() == 0 ==> r == Ok::<(Option<ServiceRoute>, Option<ServiceImage>), String>(
                (None, None),
            )
            &&& rows@.len() > 0 ==> r == Ok::<(Option<ServiceRoute>, Option<ServiceImage>), String>(
                (Some(row_route(rows@[0])), Some(row_image(rows@[0]))),
            )
        },
{
    match queried {
        Err(e) => Err(e),
        Ok(mut rows) => {
            if rows.len() == 0 {
                Ok((None, None))
            } else {
                let row = rows.swap_remove(0);
                let image_id = row.image_fk;
                let route = ServiceRoute {
                    id: row.r_id,
                    image_fk: Arc::new(image_id),
                    prefix: row.prefix,
                    exposed_port: row.exposed_port,
                    segments: row.segments,
                    https: row.https,
                };
                let image = ServiceImage { id: image_id, docker_image_id: row.docker_image_id };
                Ok((Some(route), Some(image)))
            }
        },
    }
}

} // verus!
