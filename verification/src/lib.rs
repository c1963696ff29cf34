pub mod controllers;
pub mod data;
pub mod db;
pub mod handlers;
pub mod models;
pub mod utils;
