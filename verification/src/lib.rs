//! BizClaw core logic: verified parsing, text layout and decision functions.

pub mod text;
pub mod order;
pub mod gguf;
pub mod grammar;
pub mod discovery;
pub mod orchestrator;
pub mod conversation;
pub mod hands;
pub mod skills;
pub mod channels;
pub mod zalo;
pub mod config;
pub mod ffi;
pub mod numparse;
pub mod gateway;
pub mod ws;
pub mod mcp;
pub mod llamacpp;
pub mod webhook;
pub mod instances;
pub mod models;
pub mod memory;
pub mod health;
pub mod json;
pub mod adapters;
pub mod personalize;
pub mod bindings;
pub mod gallery;
pub mod tasks;
