use std::collections::HashMap;
use vstd::prelude::*;

verus! {

/// A container's announcement that it is ready to serve a route.
pub struct MessageQueueContainerReadyAnnouncement {
    pub route: String,
    pub container_id: String,
}

/// A request held in a queue until a container can take it.
pub struct MessageQueueRequest {
    /// The request method, such as `GET`.
    pub method: Option<String>,
    /// The request path, such as `/about-us`.
    pub path: Option<String>,
    /// The request minor version, such as `1` for `HTTP/1.1`.
    pub version: Option<u8>,
    /// The request headers.
    pub headers: HashMap<String, String>,
    /// The request body.
    pub body: Option<Box<Vec<u8>>>,
}

} // verus!
