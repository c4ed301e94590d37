pub mod communication_handler;
pub mod communication_handler_helpers;
pub mod data_fetcher;
pub mod types;
