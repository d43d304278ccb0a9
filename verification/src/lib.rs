//! Trees of D-Bus objects, and what they answer to messages.
//!
//! A [`tree::Tree`] holds object paths, these hold interfaces, and these hold methods, signals
//! and properties. Handed a message, a tree gives the messages to be sent back.

pub mod text;
pub mod names;
pub mod item;
pub mod show;
pub mod message;
pub mod error;
pub mod sorted;
pub mod args;
pub mod xml;
pub mod annotation;
pub mod argument;
pub mod method;
pub mod signal;
pub mod property;
pub mod interface;
pub mod object;
pub mod tree;
pub mod dispatch;
pub mod server;
pub mod factory;
pub mod laws;
pub mod typing;
pub mod sending;
pub mod values;
pub mod answers;
pub mod texts;
pub mod parts;
pub mod operations;
