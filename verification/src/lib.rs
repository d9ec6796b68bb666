//! An on-device text-generation engine: an incremental decoder that turns a
//! stream of model-emitted token ids into text fragments, a generation-loop
//! policy that drives an autoregressive sampling loop, a proof-of-work stamp
//! for responses, and the resume policy of the model-weight download.

pub mod vocab;
pub mod decoder;
pub mod session;
pub mod request;
pub mod download;
