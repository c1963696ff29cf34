use crate::models::service_image_models::ServiceImage;
use vstd::prelude::*;

verus! {

/// A row of the image query.
pub struct ImageRow {
    pub id: i32,
    pub docker_image_id: String,
}

/// Reads an image from the rows of the image query: the first row, or none when
/// there is no row. A query error is passed on.
pub fn get_image(queried: Result<Vec<ImageRow>, String>) -> (r: Result<Option<ServiceImage>, String>)
    ensures
        queried matches Err(e) ==> r == Err::<Option<ServiceImage>, String>(e),
        queried matches Ok(rows) ==> {
            &&& rows@.len() == 0 ==> r == Ok::<Option<ServiceImage>, String>(None)
            &&& rows@.len() > 0 ==> r == Ok::<Option<ServiceImage>, String>(
                Some(ServiceImage { id: rows@[0].id, docker_image_id: rows@[0].docker_image_id }),
            )
        },
{
    match queried {
        Err(e) => Err(e),
        Ok(mut rows) => {
            if rows.len() == 0 {
                Ok(None)
            } else {
                let row = rows.swap_remove(0);
                Ok(Some(ServiceImage { id: row.id, docker_image_id: row.docker_image_id }))
            }
        },
    }
}

/// The query for an image by its row id.
pub fn image_sql() -> (sql: String)
    ensures
        sql@ == "SELECT id, docker_image_id FROM images where id = $1"@,
{
    "SELECT id, docker_image_id FROM images where id = $1".to_owned()
}

} // verus!
