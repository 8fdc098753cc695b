pub mod broker;
pub mod config;
pub mod dispatch;
pub mod dispatch_laws;
pub mod driver;
pub mod ident;
pub mod memory_store;
pub mod models;
pub mod status;
pub mod store;
pub mod store_laws;
pub mod testing;
pub mod time_format;
