pub mod app;
pub mod clock;
pub mod metrics;
pub mod types;
