//! A local coding-agent workbench: the rules of its session log, its agent
//! loop, its provider wire format, its workspace tools and its two front ends.

pub mod agent;
pub mod choices;
pub mod cli;
pub mod client;
pub mod config;
pub mod desktop;
pub mod json;
pub mod labels;
pub mod local_server;
pub mod markdown;
pub mod network;
pub mod openai;
pub mod panels;
pub mod protocol;
pub mod reasoning;
pub mod registry;
pub mod response;
pub mod screen;
pub mod server;
pub mod session;
pub mod sse;
pub mod table;
pub mod text;
pub mod token;
pub mod tools;
pub mod tui;
