//! The decision core of the Tessera desktop compositor.
//!
//! Everything a compositor decides from plain values lives here, with its
//! behaviour stated as contracts: which modes, planes and pixel layouts drive
//! the attached outputs, what an atomic display update says, which buffers may
//! be destroyed, how input focus moves between clients, and what each protocol
//! extension answers. Device access, sockets and rendering stay outside.

pub mod devnode;
pub mod dock_state;
pub mod extensions;
pub mod geometry;
pub mod host;
pub mod input;
pub mod kms;
pub mod nested;
pub mod seqs;
pub mod text;
