use vstd::prelude::*;

verus! {

/// All settings of the program.
#[derive(Debug)]
pub struct AppConfig {
    pub scraper: ScraperConfig,
    pub data: DataConfig,
    pub discord: DiscordConfig,
}

/// Where the scraper script is and how it is started.
#[derive(Debug)]
pub struct ScraperConfig {
    pub dir_path: String,
    pub file_name: String,
    pub python_command: String,
}

/// Where the data files are kept.
#[derive(Debug)]
pub struct DataConfig {
    pub dir_path: String,
}

/// The Discord webhooks that notifications, errors and logs go to.
#[derive(Debug)]
pub struct DiscordConfig {
    pub notify_webhook: Vec<String>,
    pub error_webhook: Vec<String>,
    pub logs_webhook: Vec<String>,
}

} // verus!
