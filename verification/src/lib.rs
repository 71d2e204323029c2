pub mod channel_manager;
pub mod commands;
pub mod dispatcher;
pub mod reply;
pub mod request;
pub mod session;
pub mod stock;
pub mod text;

pub use commands::{
    Decr, Del, Drop, Exists, Get, Incr, Load, Publish, Save, SetKey, Subscribe, Ttl, Unsubscribe,
};
pub mod laws;
