pub mod container_controller;
pub mod image_controller;
pub mod load_balancer_container_junction_controller;
pub mod load_balancer_controller;
pub mod route_controller;
