//! Connection handling and routing for an HTTP reverse proxy.
#![allow(deprecated)]

pub mod address;
pub mod backend;
pub mod client;
pub mod client_view;
pub mod decision_laws;
pub mod event_laws;
pub mod events;
pub mod laws;
pub mod lists;
pub mod messages;
pub mod order_laws;
pub mod outside;
pub mod parser;
pub mod ready;
pub mod server;
pub mod server_view;
pub mod table;
pub mod text;
pub mod text_laws;
