//! Restarts docker containers according to the labels they carry: on a schedule, when a
//! watched container restarted, or when a watched container became unhealthy.

pub mod configuration;
pub mod controller;
pub mod routes;
pub mod startup;
pub mod text;
pub mod time;

pub use configuration::Config;
pub use controller::fetch::State;
pub use startup::Application;
