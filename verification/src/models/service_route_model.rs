use std::sync::Arc;
use vstd::prelude::*;

verus! {

/// A route: requests whose path starts with `prefix` go to containers of an image.
#[derive(Debug)]
pub struct ServiceRoute {
    pub id: i32,
    /// Row id of the image that serves the route.
    pub image_fk: Arc<i32>,
    /// Path prefix of the service.
    pub prefix: String,
    /// Port the service listens on inside its container.
    pub exposed_port: String,
    /// Number of path segments of the prefix.
    pub segments: i32,
    /// Whether the service is reached over HTTPS.
    pub https: bool,
}

} // verus!
