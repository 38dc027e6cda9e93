//! Core of a personal memo manager: tag filtering, the memo index, the input
//! pump's tick schedule and the navigation state machine behind the terminal
//! front-end.

pub mod cli;
pub mod event;
pub mod filter;
pub mod memo;
pub mod nav;
pub mod pump;
pub mod render;
pub mod source;
pub mod text;
