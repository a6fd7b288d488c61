//! The shell and file extension.

pub mod capture;
pub mod command;
pub mod config;
pub mod cwd_laws;
pub mod cwd_state;
pub mod detail_laws;
pub mod diff;
pub mod diff_laws;
pub mod dir_lock;
pub mod dir_lock_laws;
pub mod dir_lock_tool;
pub mod dispatch;
pub mod dispatch_laws;
pub mod display;
pub mod display_laws;
pub mod edit;
pub mod edit_laws;
pub mod event;
pub mod find;
pub mod find_laws;
pub mod grep;
pub mod grep_laws;
pub mod lock_dirs;
pub mod lock_laws;
pub mod message_laws;
pub mod output_laws;
pub mod read;
pub mod read_laws;
pub mod run;
pub mod scheduler;
pub mod skills;
pub mod specs;
pub mod startup;
pub mod tool_texts;
pub mod truncate;
pub mod truncate_laws;
pub mod user_shell;
pub mod user_shell_laws;
