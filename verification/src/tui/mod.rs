//! The dashboard's decisions: layout breakpoints, routine groups, the key
//! handling state machine and the text that the terminal shows.

pub mod footer;
pub mod groups;
pub mod layout;
pub mod state;
pub mod view;
