//! Core logic of a terminal Discord client: the chat state machine, the
//! gateway and HTTP decisions, and the text rules the views are built from.

pub mod text;
pub mod clock;
pub mod models;
pub mod state;
pub mod laws;
pub mod json;
pub mod gateway;
pub mod http;
pub mod startup;
pub mod view;
