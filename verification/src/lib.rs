//! Extensions of the tau agent harness.

pub mod convert;
pub mod json;
pub mod json_text;
pub mod notifications;
pub mod number;
pub mod path;
pub mod path_laws;
pub mod proto;
pub mod provider;
pub mod scripting;
pub mod seqs;
pub mod shell;
pub mod text;
pub mod text_laws;
pub mod text_map;
pub mod utf8;
pub mod value;
