//! The core of a coding agent that talks to DeepSeek models: the conversation
//! protocol, the context bookkeeping, the goal and plan rules, the session
//! index and the text shaping that surround a model turn.

pub mod text;
pub mod json;
pub mod message;
pub mod wire;
pub mod ids;
pub mod stream;
pub mod api;
pub mod order;
pub mod paths;
pub mod session;
pub mod clock;
pub mod stamps;
pub mod events;
pub mod goals;
pub mod context;
pub mod history;
pub mod tools;
pub mod agent;
pub mod turn;
pub mod table;
pub mod harness;
pub mod harness_backend;
pub mod driver;
pub mod encode;
pub mod console;
pub mod laws;
