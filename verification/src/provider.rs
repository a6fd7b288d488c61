//! The OpenAI provider: models, requests, streams and prompts.

pub mod ack;
pub mod answer_laws;
pub mod auth;
pub mod base64;
pub mod body;
pub mod body_laws;
pub mod cancel;
pub mod context;
pub mod debug;
pub mod event_laws;
pub mod finish;
pub mod frame_laws;
pub mod http;
pub mod input;
pub mod input_laws;
pub mod job;
pub mod models;
pub mod request;
pub mod responses;
pub mod retry;
pub mod run;
pub mod run_laws;
pub mod session_laws;
pub mod stream;
pub mod stream_laws;
pub mod turn;
pub mod turn_laws;
pub mod wire_laws;
pub mod ws;
