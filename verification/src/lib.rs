//! The decision logic of a gateway between AT modems and browsers.
pub mod actor;
pub mod at;
pub mod config;
pub mod exchange;
pub mod link;
pub mod message;
pub mod session;
pub mod text;
pub mod urc;
pub mod web;
