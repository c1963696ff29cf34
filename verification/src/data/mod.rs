pub mod request_traces_types;
