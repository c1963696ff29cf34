use vstd::prelude::*;

verus! {

/// A docker container as the document store keeps it; its document ids are the 12
/// bytes of a document id.
pub struct DockerContainer {
    pub _id: [u8; 12],
    /// The document id of the image the container runs.
    pub mongo_image_reference: [u8; 12],
    /// Docker's own id of the container.
    pub container_id: String,
    pub public_port: usize,
}

} // verus!
