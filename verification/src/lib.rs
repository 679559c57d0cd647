//! The rules of a multi-account WhatsApp desktop client.

pub mod account_laws;
pub mod accounts;
pub mod aumid;
pub mod command_laws;
pub mod commands;
pub mod deeplink;
pub mod link_laws;
pub mod lock;
pub mod notify;
pub mod notify_laws;
pub mod operation_laws;
pub mod request_laws;
pub mod settings;
pub mod settings_laws;
pub mod store_id;
pub mod text;
pub mod text_laws;
pub mod text_map;
