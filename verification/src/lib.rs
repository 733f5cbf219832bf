//! Shell command correction: the response parser, the tool layer, the bounded
//! correction loop and the daemon protocol, as verified logic over plain values.

pub mod agent;
pub mod args;
pub mod cache;
pub mod context;
pub mod daemon;
pub mod discovery;
pub mod distance;
pub mod executor;
pub mod generation;
pub mod host;
pub mod json;
pub mod model;
pub mod number;
pub mod order;
pub mod parser;
pub mod plan;
pub mod platform;
pub mod prefetch;
pub mod progress;
pub mod report;
pub mod text;
pub mod textmap;
pub mod tools;
pub mod wire;
