//! Verified core of a sing-box desktop client: subscription parsing, routing
//! rules, sing-box configuration generation and the state logic around them.
pub mod json;
pub mod text;
pub mod external;
pub mod types;
pub mod rules;
pub mod cn_direct;
pub mod singbox_config;
pub mod routing;
pub mod document;
pub mod links;
pub mod clash;
pub mod subscription;
pub mod core_state;
pub mod client;
pub mod control;
pub mod schedule;
pub mod updater;
pub mod system;
pub mod lifecycle;
