pub mod text;
pub mod tree;
pub mod event;
pub mod filter;
pub mod analysis;
pub mod llm_analyzer;
pub mod analyzer;
pub mod languages;
pub mod tree_state;
pub mod attribution;
pub mod dedup;
pub mod awareness;
pub mod protocol;
pub mod sync;
pub mod config;
pub mod client;
pub mod reader;
pub mod daemon;
pub mod llm;
pub mod socket;
pub mod prune;
pub mod pipeline;
pub mod cli;
pub mod service;
pub mod assoc;
pub mod agents;
pub mod store;
pub mod watcher;
pub mod requests;
pub mod subscriptions;
pub mod state;
pub mod grpc;
pub mod gateway;
