pub mod accumulate;
pub mod app_settings;
pub mod capture;
pub mod chat_reply_listener;
pub mod clock;
pub mod crypto;
pub mod diarization;
pub mod download;
pub mod keyed;
pub mod logging;
pub mod notes;
pub mod pairing;
pub mod panels;
pub mod relay;
pub mod relay_probe;
pub mod relay_settings;
pub mod reply_router;
pub mod reply_stream;
pub mod text;
