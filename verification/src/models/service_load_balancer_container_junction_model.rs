use vstd::prelude::*;

verus! {

/// A document tying a container to a load balancer; each id is the 12 bytes of a
/// document id.
pub struct ServiceLoadBalancerContainerJunction {
    pub _id: [u8; 12],
    pub load_balancer_id: [u8; 12],
    pub container_id: [u8; 12],
}

/// The body of a new document tying a container to a load balancer.
pub struct ServiceLoadBalancerContainerJunctionInsertBody {
    pub load_balancer_id: [u8; 12],
    pub container_id: [u8; 12],
}

} // verus!
