//! Client-side core of a JSON-over-websocket chat-bot protocol: request/response
//! correlation over one persistent connection, plus a priority-ordered,
//! short-circuiting event-dispatch engine composed from plugins.

pub mod adapter;
pub mod api;
pub mod bot;
pub mod caller;
pub mod codec;
pub mod context;
pub mod dispatch;
pub mod error;
pub mod event;
pub mod frames;
pub mod json;
pub mod markdown;
pub mod matcher;
pub mod message;
pub mod plugin;
pub mod recorder;
pub mod rule;
pub mod status;
pub mod text;
pub mod urls;
