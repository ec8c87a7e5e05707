//! Prefill/decode (PD) disaggregated serving: request shaping for the
//! prefill stage, SGLang bootstrap parameters, logprob merging, and the
//! decisions of the two-stage pipeline.

pub mod prefill;
pub mod logprobs_merge;
pub mod pd;
pub mod pipeline;
