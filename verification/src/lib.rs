//! Inline harness between agents and their model providers.

pub mod admission;
pub mod artifact;
pub mod audit;
pub mod capture;
pub mod closing;
pub mod config;
pub mod dashboard;
pub mod environment;
pub mod errors;
pub mod failure;
pub mod headers;
pub mod identity;
pub mod intake;
pub mod interception;
pub mod journal;
pub mod json;
pub mod locks;
pub mod operations;
pub mod pass;
pub mod pricing;
pub mod promotion;
pub mod provider;
pub mod publication;
pub mod receipt;
pub mod recovery;
pub mod relay;
pub mod replay;
pub mod request;
pub mod rpc;
pub mod scan;
pub mod secrets;
pub mod seed;
pub mod session;
pub mod sse;
pub mod startup;
pub mod text;
pub mod text_set;
pub mod tool_call;
pub mod tools;
pub mod upstream;
