//! A breadboard is a small directed graph of a user flow: places hold
//! affordances, and an affordance may lead to another place.
//!
//! This library holds the breadboard itself, the selection and the trail of
//! places to go back to, the search-and-pick mechanism, the dispatcher that
//! applies abstract actions to all of them, and the text of what the views
//! show. It reads no key, draws nothing and touches no file: the caller
//! does, and hands over plain values.

pub mod app;
pub mod clock;
pub mod dispatch;
pub mod file;
pub mod input;
pub mod models;
pub mod picker;
pub mod text;
pub mod view;
