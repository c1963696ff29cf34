pub mod decimal;
pub mod keyed_map;
pub mod uuid_text;
pub mod docker_utils;
pub mod orchestrator_utils;
pub mod mongodb_utils;
