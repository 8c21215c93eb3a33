//! Input-handling core of a retained-mode widget toolkit: grabs, focus,
//! accelerator layers, timers, update subscriptions and keyboard navigation.
pub mod types;
pub mod config;
pub mod tree;
pub mod state;
pub mod manager;
pub mod grab;
pub mod updates;
pub mod accel;
pub mod nav;
pub mod event;
pub mod text_input;
