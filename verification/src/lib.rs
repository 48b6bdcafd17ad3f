//! The decision core of `traffwd`, a programmable HTTP proxy.

pub mod codec;
pub mod config;
pub mod headers;
pub mod http_proxy;
pub mod message;
pub mod plugins;
pub mod text;
pub mod uri;
pub mod views;
pub mod wire;
