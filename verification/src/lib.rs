//! The logic of prism-notify, a notification daemon: what comes in over the bus, the stack of
//! notifications, what the user sees of it, and when to do what. The program around it talks to
//! the bus, the compositor and the GPU.

pub mod text;
pub mod markup;
pub mod image;
pub mod notification;
pub mod config;
pub mod hints;
pub mod dbus;
pub mod ui;
pub mod stack;
pub mod surface;
pub mod daemon;
