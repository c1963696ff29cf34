use vstd::prelude::*;

verus! {

/// A docker container that serves one image, as the orchestrator tracks it.
#[derive(Debug)]
pub struct ServiceContainer {
    /// Row id in the containers table.
    pub id: i32,
    /// Docker's own id of the container.
    pub container_id: String,
    /// Host port the container is published on.
    pub public_port: i32,
    /// Value of the UUID the container announces itself with when it is ready.
    pub uuid: u128,
    /// Row id of the port reservation (container instance port pool junction) it holds.
    pub cippj_fk: i32,
}

/// The fields of a container before it has a row of its own.
#[derive(Debug)]
pub struct ServiceContainerBody {
    pub container_id: String,
    pub public_port: usize,
    pub uuid: u128,
}

/// Docker's id of an image; load balancers are keyed by it.
pub type DockerImageId = String;

} // verus!
