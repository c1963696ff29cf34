pub mod docker_container_models;
pub mod message_queue_model;
pub mod service_container_models;
pub mod service_image_models;
pub mod service_load_balancer;
pub mod service_load_balancer_container_junction_model;

pub mod service_request;
pub mod service_route_model;
