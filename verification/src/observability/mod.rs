pub mod exporter;
pub mod gstreamer;
pub mod metrics;
pub mod recorder;
pub mod server;
