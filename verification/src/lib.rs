//! A from-scratch real-time chat service core: HTTP request-line parsing, a
//! path-parameterised route matcher, cookie-based session authentication, a
//! cache-over-store repository layer for accounts, rooms and messages, and the
//! per-room broadcast fan-out engine.
//!
//! Socket handling, the durable SQLite store and the WebSocket transport live
//! in the surrounding application; this crate holds the decisions and the data
//! structures, each with a verified contract.

pub mod account;
pub mod auth;
pub mod controller;
pub mod broadcast;
pub mod entity;
pub mod ext;
pub mod http_helper;
pub mod room;
pub mod session;
pub mod strmap;
pub mod text;
pub mod utils;
