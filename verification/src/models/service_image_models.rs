use vstd::prelude::*;

verus! {

/// An image that routes point at.
#[derive(Debug)]
pub struct ServiceImage {
    /// Row id in the images table.
    pub id: i32,
    /// Docker's own id of the image.
    pub docker_image_id: String,
}

} // verus!
