pub mod container_instance_port_pool_junction;
pub mod container_instances;
pub mod containers;
pub mod images;
pub mod load_balancer_container_junctions;
pub mod load_balancers;
pub mod orchestrator_instances;
pub mod orchestrators;
pub mod port_pool;
pub mod request_trace_types;
pub mod request_traces;
pub mod requests;
pub mod routes;
pub mod tables;
