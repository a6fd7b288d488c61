//! The scripting extension: values, tools and jobs of a script.

pub mod host;
pub mod laws;
pub mod message;
pub mod run;
pub mod script_laws;
pub mod value;
