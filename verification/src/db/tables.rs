use vstd::prelude::*;

verus! {

/// Tables of the orchestrator database.
#[allow(non_camel_case_types)]
#[derive(Debug, Clone, Copy, PartialEq, Eq, Structural)]
pub enum ETables {
    CONTAINER_INSTANCE_PORT_POOL_JUNCTION,
    LOAD_BALANCER_CONTAINER_JUNCTION,
    ORCHESTRATORS,
    ORCHESTRATOR_INSTANCE,
    SERVICE_ROUTE,
    PORT_POOL,
    SERVICE_CONTAINER,
    SERVICE_LOADBALANCERS,
    SERVICE_REQUEST,
    REQUEST_TRACES,
}

impl ETables {
    /// The name it stands for in the database.
    pub open spec fn name(self) -> Seq<char> {
        match self {
            ETables::CONTAINER_INSTANCE_PORT_POOL_JUNCTION => "container_instance_port_pool_junction"@,
            ETables::LOAD_BALANCER_CONTAINER_JUNCTION => "load_balancer_container_junction"@,
            ETables::ORCHESTRATORS => "orchestrators"@,
            ETables::ORCHESTRATOR_INSTANCE => "orchestrator_instances"@,
            ETables::SERVICE_ROUTE => "routes"@,
            ETables::PORT_POOL => "port_pool"@,
            ETables::SERVICE_CONTAINER => "containers"@,
            ETables::SERVICE_LOADBALANCERS => "load_balancers"@,
            ETables::SERVICE_REQUEST => "requests"@,
            ETables::REQUEST_TRACES => "request_traces"@,
        }
    }

    /// The name it stands for in the database.
    pub fn as_str(&self) -> (r: &'static str)
        ensures
            r@ == self.name(),
    {
        match self {
            ETables::CONTAINER_INSTANCE_PORT_POOL_JUNCTION => "container_instance_port_pool_junction",
            ETables::LOAD_BALANCER_CONTAINER_JUNCTION => "load_balancer_container_junction",
            ETables::ORCHESTRATORS => "orchestrators",
            ETables::ORCHESTRATOR_INSTANCE => "orchestrator_instances",
            ETables::SERVICE_ROUTE => "routes",
            ETables::PORT_POOL => "port_pool",
            ETables::SERVICE_CONTAINER => "containers",
            ETables::SERVICE_LOADBALANCERS => "load_balancers",
            ETables::SERVICE_REQUEST => "requests",
            ETables::REQUEST_TRACES => "request_traces",
        }
    }

    /// The name it stands for in the database, as a `String`.
    pub fn to_string(&self) -> (r: String)
        ensures
            r@ == self.name(),
    {
        self.as_str().to_owned()
    }
}

} // verus!
