//! A verified writer of the tagged binary tree format that carries rich text
//! over the network.
pub mod primitive;
pub mod tag;
pub mod format;
pub mod writer;
pub mod check;
pub mod encode;
pub mod command;
pub mod structure;
