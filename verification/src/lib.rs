//! Routing core of an LLM gateway for vLLM / SGLang inference engines:
//! load-balancing policies, worker health bookkeeping, prefill/decode
//! request shaping, and Kubernetes pod reconciliation.

pub mod policies;
pub mod config;
pub mod worker;
pub mod server;
pub mod state;
pub mod text;
pub mod service_discovery;
pub mod json;
pub mod routes;
pub mod net;
pub mod proxy;
pub mod middleware;
pub mod health;
