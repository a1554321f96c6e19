//! Authentication of the web administration interface and the command line of the headless
//! service, as verified decisions over plain values.

pub mod arguments;
pub mod clock;
pub mod cookie;
pub mod credential;
pub mod crypto;
pub mod failure;
pub mod headless;
pub mod json;
pub mod laws;
pub mod laws_of_access;
pub mod laws_of_calls;
pub mod laws_of_changes;
pub mod laws_of_commands;
pub mod laws_of_limits;
pub mod laws_of_passwords;
pub mod laws_of_steps;
pub mod laws_of_text;
pub mod laws_of_views;
pub mod local_time;
pub mod password;
pub mod rate_limit;
pub mod sequences;
pub mod session;
pub mod startup;
pub mod text;
pub mod web_auth;
