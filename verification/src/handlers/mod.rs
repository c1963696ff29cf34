pub mod route_to_service_handler;
