//! A replicated key-value service: the decisions made by its servers, its HTTP gateway and its
//! test client, each with a contract that is proved.
pub mod database;
pub mod dial;
pub mod gateway;
pub mod gateway_config;
pub mod json;
pub mod kv;
pub mod link;
pub mod maelstrom;
pub mod network;
pub mod string_map;
pub mod text;
pub mod workload;
