//! Portway lets a browser control the mouse and the keyboard of a machine. This library holds what
//! the server decides: who is let in, which messages are accepted, and what they make the input
//! devices do.

pub mod address;
pub mod answers;
pub mod auth;
pub mod clock;
pub mod config;
pub mod crypto;
pub mod input;
pub mod local_pairing;
pub mod protocol;
pub mod sensitivity;
pub mod server;
pub mod session;
pub mod table;
pub mod text;
pub mod uri;
