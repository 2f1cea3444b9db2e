//! Inspecting and changing the hardware address of a network interface.
//!
//! - [`mac`]: the address itself, its text form and how a fresh one is drawn;
//! - [`wire`]: the records that the kernel's requests carry;
//! - [`listing`]: the printed list of interface names;
//! - [`control`]: the protocol of one command, request by request;
//! - [`args`] and [`error`]: the commands and what can go wrong with them.
//!
//! Nothing here talks to the kernel. A command is a [`control::Session`]
//! that hands out one request at a time; the program that holds the control
//! socket performs it and hands back the reply.

pub mod args;
pub mod control;
mod entropy;
pub mod error;
pub mod hex;
pub mod listing;
pub mod mac;
pub mod scan;
pub mod text;
pub mod wire;

pub use args::{Args, Command, Shell};
pub use control::{Phase, Reply, Request, Session, Step};
pub use error::Error;
pub use mac::{Invalid, Mac};
