pub mod text;
pub mod hex;
pub mod crypto;
pub mod config;
pub mod firefox;
pub mod helper;
pub mod proxy;
pub mod tor;
pub mod mac_spoof;
pub mod base64;
pub mod firewall;
pub mod netstate;
pub mod session;
pub mod menu;
