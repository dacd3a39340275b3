pub mod text;
pub mod json;
pub mod api_error;
pub mod secret_store;
pub mod auth;
pub mod session;
pub mod weburl;
pub mod config;
pub mod oauth;
pub mod flows;
pub mod diagnostics;
pub mod update;
pub mod audio;
pub mod realtime;
pub mod desktop;
pub mod worker;
