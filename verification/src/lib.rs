pub mod device_setup;
pub mod jobs;
pub mod latency;
