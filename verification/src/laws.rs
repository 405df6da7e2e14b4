pub mod channel_requests;
pub mod configured_headers;
pub mod json_values;
pub mod komari_reports;
pub mod mail;
pub mod notices_and_nodes;
pub mod stored_settings;
pub mod text_operations;
