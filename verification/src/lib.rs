pub mod addr;
pub mod config_file;
pub mod editor;
pub mod ip_settings;
pub mod link;
pub mod nlmsg;
pub mod plugin_config;
pub mod settings;
pub mod text;
pub mod wireguard;
