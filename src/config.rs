use vstd::prelude::*;

verus! {

/// The application's configuration.
#[derive(Debug, Clone)]
pub struct Config {
    pub app: AppConfig,
    pub web: WebConfig,
}

/// Where recordings live and which instrument to record.
#[derive(Debug, Clone)]
pub struct AppConfig {
    /// The directory of the database; it must exist.
    pub data_directory: String,
    /// Text that the sequencer client name of the instrument contains.
    pub midi_device: String,
}

/// The web surface's settings.
#[derive(Debug, Clone)]
pub struct WebConfig {
    pub port: u16,
    pub serve_frontend: Option<String>,
}

} // verus!
