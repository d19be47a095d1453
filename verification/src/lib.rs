//! The verified core of a micro-VM host: the rules of the host daemon, of the
//! guest agent and of the terminal dashboard, stated as contracts and proved.
//!
//! Everything here is plain computation on plain values. Sockets, processes,
//! files and clocks belong to the program around this library; it hands in
//! what it observed and carries out what the library answers.

pub mod api;
pub mod bytes;
pub mod clock;
pub mod error;
pub mod guestd;
pub mod json;
pub mod net;
pub mod proxy;
pub mod storage;
pub mod text;
pub mod text_laws;
pub mod vmm;
pub mod vmtop;
