pub mod agent;
pub mod api;
pub mod clock;
pub mod db;
pub mod digest;
pub mod executors;
pub mod ids;
pub mod links;
pub mod paths;
pub mod text;
pub mod text_map;
pub mod types;
